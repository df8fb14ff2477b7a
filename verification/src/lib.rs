//! Anchor: a small framework for 2D games. This crate holds the engine's
//! logic that is independent of the GPU and the windowing system: image
//! packing, glyph sheets, frame pacing and the game-loop decisions.

pub mod game_core;
pub mod graphics;
pub mod fps_limiter;
pub mod game;
pub mod game_loop;
