//! The game loop's decisions: when to exit, and which callback runs next.

pub mod game_loop;
pub mod game_phase;

use vstd::prelude::*;

verus! {

/// Whether the game should exit.
#[derive(Clone, Copy, PartialEq, Eq, Hash, Debug)]
pub enum ShouldExit {
    No,
    Yes,
}

impl ShouldExit {
    pub fn should_exit(&self) -> (exit: bool)
        ensures
            exit == (*self == ShouldExit::Yes),
    {
        match self {
            ShouldExit::Yes => true,
            ShouldExit::No => false,
        }
    }
}

} // verus!
