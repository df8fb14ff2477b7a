use anchor::fps_limiter::{FpsLimiter, ShouldRun, ShouldYield};
use anchor::game_loop::{next_frame_action, FrameAction};

const MS: u128 = 1_000_000;

#[test]
fn short_frame_yields_and_banks_no_update() {
    let mut limiter = FpsLimiter::new(60, 3);
    assert_eq!(limiter.end_frame(10 * MS), ShouldYield::Yes);
    assert_eq!(limiter.update(), ShouldRun::No);
}

#[test]
fn long_frames_bank_updates() {
    let mut limiter = FpsLimiter::new(60, 3);
    limiter.end_frame(10 * MS);
    assert_eq!(limiter.end_frame(20 * MS), ShouldYield::No);
    // 30 ms banked: one update of 16.67 ms.
    assert_eq!(limiter.update(), ShouldRun::Yes);
    assert_eq!(limiter.update(), ShouldRun::No);
}

#[test]
fn banked_time_is_capped_at_max_updates() {
    let mut limiter = FpsLimiter::new(60, 3);
    limiter.end_frame(1_000 * MS);
    let mut runs = 0;
    while limiter.update() == ShouldRun::Yes {
        runs += 1;
    }
    assert_eq!(runs, 3);
}

#[test]
fn begin_reads_the_clock() {
    let mut limiter = FpsLimiter::new(1, 1);
    // Far less than a second passes between creation and this call.
    assert_eq!(limiter.begin(), ShouldYield::Yes);
    assert_eq!(limiter.update(), ShouldRun::No);
}

#[test]
fn frame_loop_runs_due_updates_then_draws() {
    let mut limiter = FpsLimiter::new(10, 5);
    limiter.end_frame(250 * MS);
    assert_eq!(next_frame_action(&mut limiter, false), FrameAction::RunUpdate);
    assert_eq!(next_frame_action(&mut limiter, false), FrameAction::RunUpdate);
    assert_eq!(next_frame_action(&mut limiter, false), FrameAction::Draw);
}

#[test]
fn frame_loop_exits_when_asked() {
    let mut limiter = FpsLimiter::new(10, 5);
    limiter.end_frame(150 * MS);
    assert_eq!(next_frame_action(&mut limiter, true), FrameAction::Exit);
}

#[test]
fn leftover_time_carries_to_the_next_frame() {
    let mut limiter = FpsLimiter::new(10, 5);
    limiter.end_frame(250 * MS);
    let mut runs = 0;
    while limiter.update() == ShouldRun::Yes {
        runs += 1;
    }
    assert_eq!(runs, 2);
    // 50 ms stayed banked: 60 more make one more update.
    limiter.end_frame(60 * MS);
    assert_eq!(limiter.update(), ShouldRun::Yes);
    assert_eq!(limiter.update(), ShouldRun::No);
}

#[test]
fn each_frame_is_measured_from_the_last_start() {
    let start = std::time::Instant::now();
    let mut limiter = FpsLimiter::new(10, 5);
    // The limiter was made after `start`: a little less than 250 ms pass.
    limiter.begin_at(start + std::time::Duration::from_millis(250));
    assert_eq!(limiter.update(), ShouldRun::Yes);
    assert_eq!(limiter.update(), ShouldRun::Yes);
    assert_eq!(limiter.update(), ShouldRun::No);
    // Exactly 60 ms after that start: with nearly 50 ms left, one update.
    assert_eq!(
        limiter.begin_at(start + std::time::Duration::from_millis(310)),
        ShouldYield::Yes
    );
    assert_eq!(limiter.update(), ShouldRun::Yes);
    assert_eq!(limiter.update(), ShouldRun::No);
}
