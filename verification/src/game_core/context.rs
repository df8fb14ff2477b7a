use vstd::prelude::*;
use crate::game_core::game_phase::GamePhase;

verus! {

/// The part of the game context that the game loop decides with: whether
/// the game asked to exit, and the phase the game is in.
#[derive(Clone, Copy, PartialEq, Eq, Debug)]
pub struct Context {
    pub should_exit: bool,
    pub game_phase: GamePhase,
}

impl Context {
    /// A fresh context: no exit requested, handling input.
    pub fn new() -> (ctx: Self)
        ensures
            !ctx.should_exit,
            ctx.game_phase == GamePhase::Input,
    {
        Context { should_exit: false, game_phase: GamePhase::Input }
    }

    /// Returns whether exit was requested and clears the request.
    pub fn take_should_exit(&mut self) -> (requested: bool)
        ensures
            requested == old(self).should_exit,
            !final(self).should_exit,
            final(self).game_phase == old(self).game_phase,
    {
        let should_exit = self.should_exit;
        self.should_exit = false;
        should_exit
    }
}

/// Signals to the game that exit was requested.
#[inline]
pub fn request_exit(ctx: &mut Context)
    ensures
        final(ctx).should_exit,
        final(ctx).game_phase == old(ctx).game_phase,
{
    ctx.should_exit = true;
}

/// Returns the current [GamePhase].
#[inline]
pub fn game_phase(ctx: &Context) -> (phase: GamePhase)
    ensures
        phase == ctx.game_phase,
{
    ctx.game_phase
}

} // verus!
