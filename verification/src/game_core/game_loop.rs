use vstd::prelude::*;
use crate::game_core::frame_phase::GamePhase;

verus! {

/// What the loop does after the game returned an error in `phase` and its
/// error handler answered `game_exits`: exit with the phase's exit code, or
/// go on (`None`).
pub fn handle_error(phase: GamePhase, game_exits: bool) -> (exit_code: Option<i32>)
    ensures
        exit_code == if game_exits {
            Some(phase.spec_error_exit_code())
        } else {
            None::<i32>
        },
{
    if game_exits {
        Some(phase.error_exit_code())
    } else {
        None
    }
}

} // verus!
