use vstd::prelude::*;

verus! {

/// The action the game is currently doing.
#[derive(Clone, Copy, PartialEq, Eq, Debug)]
pub enum GamePhase {
    /// The game is being initialized.
    Init,
    /// The game handles input.
    Input,
    /// The game is doing an update at the beginning of the frame.
    Update,
    /// The game is doing a fixed update.
    FixedUpdate,
    /// The game is doing an update before drawing.
    LateUpdate,
    /// The game is drawing.
    Draw,
    /// The game is being destroyed.
    Destroy,
}

impl GamePhase {
    /// The process exit code reported when the game stops because of an
    /// error raised in this phase: the phase's place in the list, from 1.
    pub open spec fn spec_error_exit_code(self) -> i32 {
        match self {
            GamePhase::Init => 1,
            GamePhase::Input => 2,
            GamePhase::Update => 3,
            GamePhase::FixedUpdate => 4,
            GamePhase::LateUpdate => 5,
            GamePhase::Draw => 6,
            GamePhase::Destroy => 7,
        }
    }

    /// Returns the associated error code.
    pub fn error_exit_code(&self) -> (code: i32)
        ensures
            code == self.spec_error_exit_code(),
    {
        match self {
            GamePhase::Init => 1,
            GamePhase::Input => 2,
            GamePhase::Update => 3,
            GamePhase::FixedUpdate => 4,
            GamePhase::LateUpdate => 5,
            GamePhase::Draw => 6,
            GamePhase::Destroy => 7,
        }
    }
}

/// Different phases report different exit codes, and every code is
/// nonzero, so a failure is never reported as success.
pub proof fn lemma_exit_codes_distinct(a: GamePhase, b: GamePhase)
    ensures
        a != b ==> a.spec_error_exit_code() != b.spec_error_exit_code(),
        1 <= a.spec_error_exit_code() <= 7,
{
}

} // verus!
