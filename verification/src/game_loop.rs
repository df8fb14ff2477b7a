use vstd::prelude::*;
use crate::fps_limiter::{
    FpsLimiter, FpsLimiterModel, ShouldRun, after_update, lemma_updates_bounded, update_due,
    updates_per_frame,
};

verus! {

/// What the frame loop does next, once the window's events are handled.
#[derive(Clone, Copy, PartialEq, Eq, Debug)]
pub enum FrameAction {
    /// Run one update of the game.
    RunUpdate,
    /// Leave the loop.
    Exit,
    /// No update is due: draw the frame.
    Draw,
}

/// Asks the limiter whether an update is due: if so, the loop exits when
/// the game asked to, else runs the update; if not, it draws. An update's
/// error also exits, which the caller does on its own.
pub fn next_frame_action(limiter: &mut FpsLimiter, exit_requested: bool) -> (action: FrameAction)
    requires
        old(limiter).wf(),
    ensures
        final(limiter).wf(),
        final(limiter)@ == if update_due(old(limiter)@) {
            after_update(old(limiter)@)
        } else {
            old(limiter)@
        },
        action == if !update_due(old(limiter)@) {
            FrameAction::Draw
        } else if exit_requested {
            FrameAction::Exit
        } else {
            FrameAction::RunUpdate
        },
{
    match limiter.update() {
        ShouldRun::Yes => if exit_requested {
            FrameAction::Exit
        } else {
            FrameAction::RunUpdate
        },
        ShouldRun::No => FrameAction::Draw,
    }
}

/// The limiter after `k` fixed updates.
pub open spec fn after_k_updates(m: FpsLimiterModel, k: nat) -> FpsLimiterModel
    decreases k,
{
    if k == 0 {
        m
    } else {
        after_k_updates(after_update(m), (k - 1) as nat)
    }
}

/// A frame runs a bounded number of updates: `next_frame_action` answers
/// `RunUpdate` only while an update is due and each answer takes one update
/// from the bank, so if it answered `RunUpdate` `k` times in a row, whatever
/// the exit requests, `k` is at most the updates banked, and at most
/// `max_updates_per_frame` for a limiter made by `new` (3 for
/// `FpsLimiter::new(60, 3)`).
pub proof fn lemma_frame_update_bound(m: FpsLimiterModel, k: nat, max_updates_per_frame: nat)
    requires
        m.target_frame > 0,
        m.accumulator <= m.max_accumulator,
        forall|j: nat| j < k ==> #[trigger] update_due(after_k_updates(m, j)),
    ensures
        k <= updates_per_frame(m),
        m.max_accumulator == max_updates_per_frame * m.target_frame ==> k <= max_updates_per_frame,
    decreases k,
{
    if k > 0 {
        assert(update_due(after_k_updates(m, 0)));
        let next = after_update(m);
        assert forall|j: nat| j < (k - 1) as nat implies #[trigger] update_due(after_k_updates(next, j)) by {
            assert(update_due(after_k_updates(m, j + 1)));
        }
        lemma_frame_update_bound(next, (k - 1) as nat, 0);
    }
    if m.max_accumulator == max_updates_per_frame * m.target_frame {
        lemma_updates_bounded(m, max_updates_per_frame);
    }
}

} // verus!
