//! Phases of the game loop, the plain state of the game context, and the
//! loop's error handling.

pub mod context;
pub mod frame_phase;
pub mod game_loop;
pub mod game_phase;
