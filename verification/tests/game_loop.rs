use anchor::game::game_loop::{exits_at_frame_start, LoopState, WindowEvent, WindowEventAction};
use anchor::game::game_loop::{
    draw, first_update_step, update, CallbackResult, ShouldExit, UpdateCallback, UpdateStep,
};
use anchor::game::game_phase::GamePhase;
use anchor::game::ShouldExit as GameShouldExit;
use anchor::game_core::context::{game_phase, request_exit, Context};
use anchor::game_core::frame_phase::GamePhase as FramePhase;
use anchor::game_core::game_loop::handle_error;
use anchor::game_core::game_phase::GamePhase as CorePhase;

#[test]
fn exit_codes_follow_phase_order() {
    assert_eq!(CorePhase::Init.error_exit_code(), 1);
    assert_eq!(CorePhase::Input.error_exit_code(), 2);
    assert_eq!(CorePhase::Update.error_exit_code(), 3);
    assert_eq!(CorePhase::FixedUpdate.error_exit_code(), 4);
    assert_eq!(CorePhase::LateUpdate.error_exit_code(), 5);
    assert_eq!(CorePhase::Draw.error_exit_code(), 6);
    assert_eq!(CorePhase::Destroy.error_exit_code(), 7);
    assert_eq!(FramePhase::Init.error_exit_code(), 1);
    assert_eq!(FramePhase::Draw.error_exit_code(), 6);
    assert_eq!(FramePhase::Destroy.error_exit_code(), 7);
}

#[test]
fn should_exit_reads_the_flag() {
    assert!(ShouldExit::Yes.should_exit());
    assert!(!ShouldExit::No.should_exit());
    assert!(GameShouldExit::Yes.should_exit());
    assert!(!GameShouldExit::No.should_exit());
}

#[test]
fn update_runs_update_fixed_updates_then_late_update() {
    let mut step = first_update_step();
    assert_eq!(step, UpdateStep::Run(UpdateCallback::Update));
    step = update(UpdateCallback::Update, CallbackResult::Succeeded, true);
    assert_eq!(step, UpdateStep::Run(UpdateCallback::FixedUpdate));
    step = update(UpdateCallback::FixedUpdate, CallbackResult::Succeeded, true);
    assert_eq!(step, UpdateStep::Run(UpdateCallback::FixedUpdate));
    step = update(UpdateCallback::FixedUpdate, CallbackResult::Succeeded, false);
    assert_eq!(step, UpdateStep::Run(UpdateCallback::LateUpdate));
    step = update(UpdateCallback::LateUpdate, CallbackResult::Succeeded, true);
    assert_eq!(step, UpdateStep::Finish(ShouldExit::No));
}

#[test]
fn update_without_due_fixed_update_goes_to_late_update() {
    assert_eq!(
        update(UpdateCallback::Update, CallbackResult::Succeeded, false),
        UpdateStep::Run(UpdateCallback::LateUpdate)
    );
}

#[test]
fn failed_callback_exits_only_when_handler_says_so() {
    assert_eq!(
        update(UpdateCallback::Update, CallbackResult::Failed(ShouldExit::Yes), true),
        UpdateStep::Finish(ShouldExit::Yes)
    );
    assert_eq!(
        update(UpdateCallback::FixedUpdate, CallbackResult::Failed(ShouldExit::No), false),
        UpdateStep::Run(UpdateCallback::LateUpdate)
    );
    assert_eq!(
        update(UpdateCallback::LateUpdate, CallbackResult::Failed(ShouldExit::No), false),
        UpdateStep::Finish(ShouldExit::No)
    );
}

#[test]
fn update_callbacks_report_their_phase() {
    assert_eq!(UpdateCallback::Update.phase(), GamePhase::Update);
    assert_eq!(UpdateCallback::FixedUpdate.phase(), GamePhase::FixedUpdate);
    assert_eq!(UpdateCallback::LateUpdate.phase(), GamePhase::LateUpdate);
}

#[test]
fn draw_presents_unless_exiting() {
    assert_eq!(draw(CallbackResult::Succeeded), (true, ShouldExit::No));
    assert_eq!(draw(CallbackResult::Failed(ShouldExit::No)), (true, ShouldExit::No));
    assert_eq!(draw(CallbackResult::Failed(ShouldExit::Yes)), (false, ShouldExit::Yes));
}

#[test]
fn handle_error_exits_with_phase_code() {
    assert_eq!(handle_error(FramePhase::Update, true), Some(3));
    assert_eq!(handle_error(FramePhase::Draw, true), Some(6));
    assert_eq!(handle_error(FramePhase::Draw, false), None);
}

#[test]
fn exit_request_is_taken_once() {
    let mut ctx = Context::new();
    assert_eq!(game_phase(&ctx), CorePhase::Input);
    assert!(!ctx.take_should_exit());
    request_exit(&mut ctx);
    assert!(ctx.take_should_exit());
    assert!(!ctx.take_should_exit());
}

#[test]
fn window_events_update_loop_state() {
    let mut state = LoopState::new();
    assert_eq!(state.game_phase, GamePhase::Init);
    assert_eq!(state.on_window_event(WindowEvent::CursorEntered), WindowEventAction::Nothing);
    assert!(state.hovers_window);
    assert_eq!(state.on_window_event(WindowEvent::Resized(640, 480)), WindowEventAction::Resize(640, 480));
    assert_eq!(state.on_window_event(WindowEvent::CloseRequested), WindowEventAction::AskExit);
    assert_eq!(state.on_window_event(WindowEvent::CursorLeft), WindowEventAction::Nothing);
    assert!(!state.hovers_window);
    assert_eq!(state.on_window_event(WindowEvent::RedrawRequested), WindowEventAction::Draw);
    assert_eq!(state.game_phase, GamePhase::Draw);
    assert_eq!(state.on_window_event(WindowEvent::Other), WindowEventAction::Nothing);
    assert_eq!(state.game_phase, GamePhase::Draw);

    assert!(!state.start_frame());
    assert_eq!(state.game_phase, GamePhase::FrameStart);
    state.request_exit();
    assert!(state.start_frame());
    assert!(!state.should_exit);
    assert!(exits_at_frame_start(true, ShouldExit::Yes));
    assert!(!exits_at_frame_start(true, ShouldExit::No));
    assert!(!exits_at_frame_start(false, ShouldExit::Yes));

    state.begin_callback(UpdateCallback::FixedUpdate);
    assert_eq!(state.game_phase, GamePhase::FixedUpdate);
    state.await_input();
    assert_eq!(state.game_phase, GamePhase::Input);
    state.on_exiting();
    assert_eq!(state.game_phase, GamePhase::Exit);
}
