use vstd::prelude::*;
use std::time::Instant;

verus! {

/// Nanoseconds in one second.
pub const NANOS_PER_SEC: u128 = 1_000_000_000;

/// The longest duration `std::time::Duration` can hold, in nanoseconds:
/// `u64::MAX` seconds and 999_999_999 nanoseconds.
pub open spec fn max_duration_nanos() -> int {
    u64::MAX as int * 1_000_000_000 + 999_999_999
}

#[verifier::external_type_specification]
#[verifier::external_body]
pub struct ExInstant(Instant);

/// `std::time::Instant::now`: a reading of the monotonic clock. Nothing is
/// promised of it; two calls may give different instants.
#[verifier::external_body]
fn instant_now() -> Instant {
    Instant::now()
}

/// The whole nanoseconds from `earlier` to `later` (0 when `later` is not
/// after `earlier`), as `Instant - Instant` measures them.
pub uninterp spec fn nanos_between(later: Instant, earlier: Instant) -> nat;

/// `Instant - Instant` (`std::ops::Sub`), read in whole nanoseconds with
/// `Duration::as_nanos`: the time from `earlier` to `later`. It is a function
/// of the two instants, and at most `Duration::MAX`.
#[verifier::external_body]
fn elapsed_nanos(later: Instant, earlier: Instant) -> (nanos: u128)
    ensures
        nanos == nanos_between(later, earlier),
        nanos <= max_duration_nanos(),
{
    (later - earlier).as_nanos()
}

#[derive(Clone, Copy, PartialEq, Eq, Debug)]
pub enum ShouldYield {
    No,
    Yes,
}

#[derive(Clone, Copy, PartialEq, Eq, Debug)]
pub enum ShouldRun {
    No,
    Yes,
}

/// The state of a frame limiter, in nanoseconds: the length of one fixed
/// update, the most time that may be banked, and the time banked.
pub ghost struct FpsLimiterModel {
    pub target_frame: nat,
    pub max_accumulator: nat,
    pub accumulator: nat,
}

/// The limiter after a frame that took `elapsed` nanoseconds: the time is
/// banked, up to the limit.
pub open spec fn after_frame(m: FpsLimiterModel, elapsed: nat) -> FpsLimiterModel {
    FpsLimiterModel {
        accumulator: if m.accumulator + elapsed > m.max_accumulator {
            m.max_accumulator
        } else {
            m.accumulator + elapsed
        },
        ..m
    }
}

/// Whether a frame that took `elapsed` nanoseconds was shorter than the
/// target, so that the caller may yield.
pub open spec fn yields_after(m: FpsLimiterModel, elapsed: nat) -> bool {
    elapsed < m.target_frame
}

/// Whether a fixed update is due: a whole update's time is banked.
pub open spec fn update_due(m: FpsLimiterModel) -> bool {
    m.accumulator >= m.target_frame
}

/// The limiter after one fixed update ran: its time is taken from the bank.
pub open spec fn after_update(m: FpsLimiterModel) -> FpsLimiterModel {
    FpsLimiterModel { accumulator: (m.accumulator - m.target_frame) as nat, ..m }
}

/// Paces a game loop: banks the time each frame took and hands it out in
/// fixed-length updates.
#[derive(Clone, Copy)]
pub struct FpsLimiter {
    target_frame_duration: u128,
    max_accumulator: u128,
    old_time: Instant,
    accumulator: u128,
}

impl View for FpsLimiter {
    type V = FpsLimiterModel;

    closed spec fn view(&self) -> FpsLimiterModel {
        FpsLimiterModel {
            target_frame: self.target_frame_duration as nat,
            max_accumulator: self.max_accumulator as nat,
            accumulator: self.accumulator as nat,
        }
    }
}

impl FpsLimiter {
    /// The banked time never exceeds the limit, and the limit is at most
    /// `u32::MAX` seconds.
    pub open spec fn wf(&self) -> bool {
        &&& self@.accumulator <= self@.max_accumulator
        &&& self@.max_accumulator <= u32::MAX as int * 1_000_000_000
    }

    /// A limiter that runs `target_fps` fixed updates per second and banks
    /// the time of at most `max_updates_per_frame` of them. One second is
    /// divided by `target_fps`, so it must not be 0.
    pub fn new(target_fps: u32, max_updates_per_frame: u32) -> (limiter: Self)
        requires
            target_fps > 0,
        ensures
            limiter.wf(),
            limiter@.target_frame == 1_000_000_000int / (target_fps as int),
            limiter@.max_accumulator == max_updates_per_frame * (1_000_000_000int / (target_fps as int)),
            limiter@.accumulator == 0,
    {
        let target_frame_duration = NANOS_PER_SEC / (target_fps as u128);
        assert(target_frame_duration <= 1_000_000_000);
        assert(max_updates_per_frame * target_frame_duration <= u32::MAX as int * 1_000_000_000)
            by (nonlinear_arith)
            requires
                target_frame_duration <= 1_000_000_000,
                max_updates_per_frame <= u32::MAX,
        ;
        FpsLimiter {
            target_frame_duration,
            max_accumulator: (max_updates_per_frame as u128) * target_frame_duration,
            old_time: instant_now(),
            accumulator: 0,
        }
    }

    /// Banks the time of a frame that took `elapsed` nanoseconds and tells
    /// whether the frame was shorter than the target.
    pub fn end_frame(&mut self, elapsed: u128) -> (should_yield: ShouldYield)
        requires
            old(self).wf(),
        ensures
            final(self).wf(),
            final(self)@ == after_frame(old(self)@, elapsed as nat),
            final(self).last_instant() == old(self).last_instant(),
            (should_yield == ShouldYield::Yes) == yields_after(old(self)@, elapsed as nat),
    {
        if elapsed > self.max_accumulator - self.accumulator {
            self.accumulator = self.max_accumulator;
        } else {
            self.accumulator = self.accumulator + elapsed;
        }
        if elapsed < self.target_frame_duration {
            ShouldYield::Yes
        } else {
            ShouldYield::No
        }
    }

    /// The instant the current frame started at, which the next frame's
    /// time is measured from.
    pub closed spec fn last_instant(&self) -> Instant {
        self.old_time
    }

    /// Starts a frame at instant `now`: banks the time since the previous
    /// frame started (see `end_frame`), remembers `now` as the start of this
    /// frame, and tells whether the previous frame was shorter than the
    /// target.
    pub fn begin_at(&mut self, now: Instant) -> (should_yield: ShouldYield)
        requires
            old(self).wf(),
        ensures
            final(self).wf(),
            final(self).last_instant() == now,
            final(self)@ == after_frame(old(self)@, nanos_between(now, old(self).last_instant())),
            (should_yield == ShouldYield::Yes) == yields_after(
                old(self)@,
                nanos_between(now, old(self).last_instant()),
            ),
            nanos_between(now, old(self).last_instant()) <= max_duration_nanos(),
    {
        let last_frame_time = elapsed_nanos(now, self.old_time);
        self.old_time = now;
        self.end_frame(last_frame_time)
    }

    /// Starts a frame: reads the clock and starts the frame at that instant
    /// (see `begin_at`).
    pub fn begin(&mut self) -> (should_yield: ShouldYield)
        requires
            old(self).wf(),
        ensures
            final(self).wf(),
            exists|elapsed: nat|
                elapsed <= max_duration_nanos() && final(self)@ == after_frame(old(self)@, elapsed)
                    && (should_yield == ShouldYield::Yes) == yields_after(old(self)@, elapsed),
    {
        let current_time = instant_now();
        self.begin_at(current_time)
    }

    /// Runs one fixed update if a whole update's time is banked, taking it
    /// from the bank.
    pub fn update(&mut self) -> (should_run: ShouldRun)
        requires
            old(self).wf(),
        ensures
            final(self).wf(),
            (should_run == ShouldRun::Yes) == update_due(old(self)@),
            final(self).last_instant() == old(self).last_instant(),
            final(self)@ == if update_due(old(self)@) {
                after_update(old(self)@)
            } else {
                old(self)@
            },
    {
        if self.accumulator >= self.target_frame_duration {
            self.accumulator = self.accumulator - self.target_frame_duration;
            ShouldRun::Yes
        } else {
            ShouldRun::No
        }
    }
}

/// The limiter's bounds hold over any sequence of calls: neither a frame
/// (`begin`, `begin_at`, `end_frame`) nor an update changes the update
/// length or the cap, and both keep the banked time between 0 and the cap.
/// So a limiter made by `new(fps, max)` banks at most `max` updates' time
/// forever after.
pub proof fn lemma_limiter_steps_keep_cap(m: FpsLimiterModel, elapsed: nat)
    requires
        m.accumulator <= m.max_accumulator,
    ensures
        after_frame(m, elapsed).accumulator <= after_frame(m, elapsed).max_accumulator,
        after_frame(m, elapsed).max_accumulator == m.max_accumulator,
        after_frame(m, elapsed).target_frame == m.target_frame,
        update_due(m) ==> after_update(m).accumulator <= after_update(m).max_accumulator,
        after_update(m).max_accumulator == m.max_accumulator,
        after_update(m).target_frame == m.target_frame,
{
}

/// A frame banks all its time up to the cap: after a frame of `elapsed`
/// nanoseconds the bank holds the old bank plus `elapsed` when that fits
/// under the cap, and the cap otherwise. So the bank never shrinks, never
/// passes the cap, never gains more than the frame's time, and a longer
/// frame never banks less than a shorter one.
pub proof fn lemma_frame_banks_up_to_cap(m: FpsLimiterModel, elapsed: nat, longer: nat)
    requires
        m.accumulator <= m.max_accumulator,
        elapsed <= longer,
    ensures
        m.accumulator + elapsed <= m.max_accumulator ==> after_frame(m, elapsed).accumulator
            == m.accumulator + elapsed,
        m.accumulator + elapsed > m.max_accumulator ==> after_frame(m, elapsed).accumulator
            == m.max_accumulator,
        m.accumulator <= after_frame(m, elapsed).accumulator <= m.max_accumulator,
        after_frame(m, elapsed).accumulator <= m.accumulator + elapsed,
        after_frame(m, elapsed).accumulator <= after_frame(m, longer).accumulator,
{
}

/// The number of fixed updates a frame runs: `update` says yes until the
/// bank holds less than one update's time.
pub open spec fn updates_per_frame(m: FpsLimiterModel) -> nat
    decreases m.accumulator,
{
    if m.target_frame > 0 && update_due(m) {
        1 + updates_per_frame(after_update(m))
    } else {
        0
    }
}

/// A frame runs as many fixed updates as whole updates are banked, and so
/// at most the banked limit over the update length (for a limiter made by
/// `new`, `max_updates_per_frame`).
pub proof fn lemma_updates_per_frame(m: FpsLimiterModel)
    requires
        m.target_frame > 0,
        m.accumulator <= m.max_accumulator,
    ensures
        updates_per_frame(m) == m.accumulator / m.target_frame,
        updates_per_frame(m) <= m.max_accumulator / m.target_frame,
    decreases m.accumulator,
{
    if update_due(m) {
        lemma_updates_per_frame(after_update(m));
        assert(m.accumulator / m.target_frame == 1 + (m.accumulator - m.target_frame) as nat
            / m.target_frame) by {
            vstd::arithmetic::div_mod::lemma_div_plus_one(
                (m.accumulator - m.target_frame) as int,
                m.target_frame as int,
            );
        }
    } else {
        vstd::arithmetic::div_mod::lemma_basic_div(m.accumulator as int, m.target_frame as int);
    }
    vstd::arithmetic::div_mod::lemma_div_is_ordered(
        m.accumulator as int,
        m.max_accumulator as int,
        m.target_frame as int,
    );
}

/// The limiter after a frame's fixed updates: `update` ran until it said
/// no.
pub open spec fn after_updates(m: FpsLimiterModel) -> FpsLimiterModel
    decreases m.accumulator,
{
    if m.target_frame > 0 && update_due(m) {
        after_updates(after_update(m))
    } else {
        m
    }
}

/// No banked time is lost: after a frame's fixed updates, what stays banked
/// is what was banked less one update's time per update run, which is less
/// than one update's time.
pub proof fn lemma_updates_keep_remainder(m: FpsLimiterModel)
    requires
        m.target_frame > 0,
    ensures
        after_updates(m).accumulator + updates_per_frame(m) * m.target_frame == m.accumulator,
        after_updates(m).accumulator < m.target_frame,
        after_updates(m).target_frame == m.target_frame,
        after_updates(m).max_accumulator == m.max_accumulator,
    decreases m.accumulator,
{
    if update_due(m) {
        lemma_updates_keep_remainder(after_update(m));
        assert(updates_per_frame(m) * m.target_frame == m.target_frame + updates_per_frame(after_update(m))
            * m.target_frame) by (nonlinear_arith)
            requires
                updates_per_frame(m) == 1 + updates_per_frame(after_update(m)),
        ;
    } else {
        assert(updates_per_frame(m) * m.target_frame == 0) by (nonlinear_arith)
            requires
                updates_per_frame(m) == 0,
        ;
    }
}

/// With `max_updates_per_frame` banked updates at most, a frame runs at most
/// `max_updates_per_frame` fixed updates.
pub proof fn lemma_updates_bounded(m: FpsLimiterModel, max_updates_per_frame: nat)
    requires
        m.target_frame > 0,
        m.accumulator <= m.max_accumulator,
        m.max_accumulator == max_updates_per_frame * m.target_frame,
    ensures
        updates_per_frame(m) <= max_updates_per_frame,
{
    lemma_updates_per_frame(m);
    vstd::arithmetic::div_mod::lemma_div_by_multiple(max_updates_per_frame as int, m.target_frame as int);
}

} // verus!
