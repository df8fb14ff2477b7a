use vstd::prelude::*;
use crate::game::game_phase::GamePhase;

verus! {

/// Whether the game should exit.
#[derive(Clone, Copy, PartialEq, Eq, Hash, Debug)]
pub enum ShouldExit {
    No,
    Yes,
}

impl ShouldExit {
    pub fn should_exit(&self) -> (exit: bool)
        ensures
            exit == (*self == ShouldExit::Yes),
    {
        match self {
            ShouldExit::Yes => true,
            ShouldExit::No => false,
        }
    }
}

/// How a callback of the game went: it succeeded, or it returned an error
/// and the game's error handler answered whether to exit.
#[derive(Clone, Copy, PartialEq, Eq, Debug)]
pub enum CallbackResult {
    Succeeded,
    Failed(ShouldExit),
}

/// The callbacks that a frame's update runs.
#[derive(Clone, Copy, PartialEq, Eq, Debug)]
pub enum UpdateCallback {
    Update,
    FixedUpdate,
    LateUpdate,
}

/// What a frame's update does next: run a callback, or end, telling
/// whether the game exits.
#[derive(Clone, Copy, PartialEq, Eq, Debug)]
pub enum UpdateStep {
    Run(UpdateCallback),
    Finish(ShouldExit),
}

/// Whether `result` is an error whose handler asked to exit.
pub open spec fn exits_on(result: CallbackResult) -> bool {
    result == CallbackResult::Failed(ShouldExit::Yes)
}

/// The step after `done` ran with `result`: an error whose handler asks to
/// exit ends the update with `Yes`; after the update and after each fixed
/// update, another fixed update runs while one is due, else the late update;
/// after the late update the update ends with `No`.
pub open spec fn spec_next_update_step(
    done: UpdateCallback,
    result: CallbackResult,
    fixed_update_due: bool,
) -> UpdateStep {
    if exits_on(result) {
        UpdateStep::Finish(ShouldExit::Yes)
    } else {
        match done {
            UpdateCallback::LateUpdate => UpdateStep::Finish(ShouldExit::No),
            _ => if fixed_update_due {
                UpdateStep::Run(UpdateCallback::FixedUpdate)
            } else {
                UpdateStep::Run(UpdateCallback::LateUpdate)
            },
        }
    }
}

impl UpdateCallback {
    /// The phase the game is in while this callback runs.
    pub open spec fn spec_phase(self) -> GamePhase {
        match self {
            UpdateCallback::Update => GamePhase::Update,
            UpdateCallback::FixedUpdate => GamePhase::FixedUpdate,
            UpdateCallback::LateUpdate => GamePhase::LateUpdate,
        }
    }

    pub fn phase(&self) -> (phase: GamePhase)
        ensures
            phase == self.spec_phase(),
    {
        match self {
            UpdateCallback::Update => GamePhase::Update,
            UpdateCallback::FixedUpdate => GamePhase::FixedUpdate,
            UpdateCallback::LateUpdate => GamePhase::LateUpdate,
        }
    }
}

/// A frame's update starts with the update callback.
pub fn first_update_step() -> (step: UpdateStep)
    ensures
        step == UpdateStep::Run(UpdateCallback::Update),
{
    UpdateStep::Run(UpdateCallback::Update)
}

/// Whether the clock must be asked if a fixed update is due before the
/// step after `done` can be told: it is not asked after the late update,
/// nor when the game is about to exit.
pub fn asks_clock(done: UpdateCallback, result: CallbackResult) -> (ask: bool)
    ensures
        ask == (!exits_on(result) && done != UpdateCallback::LateUpdate),
        !ask ==> forall|due: bool| #[trigger] spec_next_update_step(done, result, due)
            == spec_next_update_step(done, result, false),
{
    if let CallbackResult::Failed(ShouldExit::Yes) = result {
        return false;
    }
    match done {
        UpdateCallback::LateUpdate => false,
        _ => true,
    }
}

/// The step of a frame's update after `done` ran with `result`;
/// `fixed_update_due` is the clock's answer to whether another fixed update
/// is due (see `spec_next_update_step`).
pub fn update(done: UpdateCallback, result: CallbackResult, fixed_update_due: bool) -> (step:
    UpdateStep)
    ensures
        step == spec_next_update_step(done, result, fixed_update_due),
{
    if let CallbackResult::Failed(ShouldExit::Yes) = result {
        return UpdateStep::Finish(ShouldExit::Yes);
    }
    match done {
        UpdateCallback::LateUpdate => UpdateStep::Finish(ShouldExit::No),
        _ => if fixed_update_due {
            UpdateStep::Run(UpdateCallback::FixedUpdate)
        } else {
            UpdateStep::Run(UpdateCallback::LateUpdate)
        },
    }
}

/// What follows the draw callback: whether the frame is presented, and
/// whether the game exits. An error whose handler asks to exit skips the
/// presentation and exits; anything else presents and goes on.
pub fn draw(result: CallbackResult) -> (outcome: (bool, ShouldExit))
    ensures
        outcome == if exits_on(result) {
            (false, ShouldExit::Yes)
        } else {
            (true, ShouldExit::No)
        },
{
    if let CallbackResult::Failed(ShouldExit::Yes) = result {
        (false, ShouldExit::Yes)
    } else {
        (true, ShouldExit::No)
    }
}

/// A window event, as the game loop tells them apart.
#[derive(Clone, Copy, PartialEq, Eq, Debug)]
pub enum WindowEvent {
    CloseRequested,
    /// The user resized the window to this width and height.
    Resized(u32, u32),
    KeyPressed,
    KeyReleased,
    ModifiersChanged,
    MouseButtonPressed,
    MouseButtonReleased,
    CursorEntered,
    CursorLeft,
    CursorMoved,
    MouseWheel,
    /// The window lost the focus.
    FocusLost,
    RedrawRequested,
    /// Any other event, which the loop ignores.
    Other,
}

/// What the loop does for a window event, beside updating its own state.
#[derive(Clone, Copy, PartialEq, Eq, Debug)]
pub enum WindowEventAction {
    /// Ask the game whether to exit, and exit if it says so.
    AskExit,
    /// Resize the surface to this width and height and tell the game, as a
    /// resize that the program did not ask for.
    Resize(u32, u32),
    /// Record the key and tell the game.
    PressKey,
    ReleaseKey,
    /// Record the modifiers and tell the game.
    ChangeModifiers,
    /// Record the button and tell the game.
    PressMouseButton,
    ReleaseMouseButton,
    /// Record the cursor's position and tell the game.
    MoveCursor,
    /// Tell the game how far the wheel turned.
    Scroll,
    /// Release every key and button held.
    LoseFocus,
    /// Draw the frame (see `draw`).
    Draw,
    Nothing,
}

/// The loop's own part of the game context: the phase the game is in,
/// whether the game asked to exit, and whether the cursor hovers the
/// window.
#[derive(Clone, Copy, PartialEq, Eq, Debug)]
pub struct LoopState {
    pub game_phase: GamePhase,
    pub should_exit: bool,
    pub hovers_window: bool,
}

/// The action for a window event.
pub open spec fn window_event_action(event: WindowEvent) -> WindowEventAction {
    match event {
        WindowEvent::CloseRequested => WindowEventAction::AskExit,
        WindowEvent::Resized(w, h) => WindowEventAction::Resize(w, h),
        WindowEvent::KeyPressed => WindowEventAction::PressKey,
        WindowEvent::KeyReleased => WindowEventAction::ReleaseKey,
        WindowEvent::ModifiersChanged => WindowEventAction::ChangeModifiers,
        WindowEvent::MouseButtonPressed => WindowEventAction::PressMouseButton,
        WindowEvent::MouseButtonReleased => WindowEventAction::ReleaseMouseButton,
        WindowEvent::CursorMoved => WindowEventAction::MoveCursor,
        WindowEvent::MouseWheel => WindowEventAction::Scroll,
        WindowEvent::FocusLost => WindowEventAction::LoseFocus,
        WindowEvent::RedrawRequested => WindowEventAction::Draw,
        _ => WindowEventAction::Nothing,
    }
}

/// The loop's state after a window event: entering or leaving the window
/// sets whether the cursor hovers it, and a redraw puts the game in the
/// draw phase.
pub open spec fn after_window_event(state: LoopState, event: WindowEvent) -> LoopState {
    match event {
        WindowEvent::CursorEntered => LoopState { hovers_window: true, ..state },
        WindowEvent::CursorLeft => LoopState { hovers_window: false, ..state },
        WindowEvent::RedrawRequested => LoopState { game_phase: GamePhase::Draw, ..state },
        _ => state,
    }
}

impl LoopState {
    /// The state before the loop starts: the game is being initialized,
    /// nothing is requested and the cursor is outside the window.
    pub fn new() -> (state: Self)
        ensures
            state == (LoopState {
                game_phase: GamePhase::Init,
                should_exit: false,
                hovers_window: false,
            }),
    {
        LoopState { game_phase: GamePhase::Init, should_exit: false, hovers_window: false }
    }

    /// The game asks to exit; the loop asks it again at the next frame.
    pub fn request_exit(&mut self)
        ensures
            *final(self) == (LoopState { should_exit: true, ..*old(self) }),
    {
        self.should_exit = true;
    }

    /// The loop starts: the game is initialized.
    pub fn on_init(&mut self)
        ensures
            *final(self) == (LoopState { game_phase: GamePhase::Init, ..*old(self) }),
    {
        self.game_phase = GamePhase::Init;
    }

    /// A frame starts: the game is at the frame's start, and the request to
    /// exit, if any, is taken. The result tells whether to ask the game to
    /// confirm it.
    pub fn start_frame(&mut self) -> (ask_exit: bool)
        ensures
            ask_exit == old(self).should_exit,
            *final(self) == (LoopState {
                game_phase: GamePhase::FrameStart,
                should_exit: false,
                ..*old(self)
            }),
    {
        self.game_phase = GamePhase::FrameStart;
        let ask_exit = self.should_exit;
        self.should_exit = false;
        ask_exit
    }

    /// An update callback is about to run: the game is in its phase.
    pub fn begin_callback(&mut self, callback: UpdateCallback)
        ensures
            *final(self) == (LoopState { game_phase: callback.spec_phase(), ..*old(self) }),
    {
        self.game_phase = callback.phase();
    }

    /// The frame's updates are done and a redraw was asked: the game
    /// handles input until the redraw comes.
    pub fn await_input(&mut self)
        ensures
            *final(self) == (LoopState { game_phase: GamePhase::Input, ..*old(self) }),
    {
        self.game_phase = GamePhase::Input;
    }

    /// Handles a window event: updates the state and says what else to do.
    pub fn on_window_event(&mut self, event: WindowEvent) -> (action: WindowEventAction)
        ensures
            action == window_event_action(event),
            *final(self) == after_window_event(*old(self), event),
    {
        match event {
            WindowEvent::CloseRequested => WindowEventAction::AskExit,
            WindowEvent::Resized(w, h) => WindowEventAction::Resize(w, h),
            WindowEvent::KeyPressed => WindowEventAction::PressKey,
            WindowEvent::KeyReleased => WindowEventAction::ReleaseKey,
            WindowEvent::ModifiersChanged => WindowEventAction::ChangeModifiers,
            WindowEvent::MouseButtonPressed => WindowEventAction::PressMouseButton,
            WindowEvent::MouseButtonReleased => WindowEventAction::ReleaseMouseButton,
            WindowEvent::CursorEntered => {
                self.hovers_window = true;
                WindowEventAction::Nothing
            },
            WindowEvent::CursorLeft => {
                self.hovers_window = false;
                WindowEventAction::Nothing
            },
            WindowEvent::CursorMoved => WindowEventAction::MoveCursor,
            WindowEvent::MouseWheel => WindowEventAction::Scroll,
            WindowEvent::FocusLost => WindowEventAction::LoseFocus,
            WindowEvent::RedrawRequested => {
                self.game_phase = GamePhase::Draw;
                WindowEventAction::Draw
            },
            WindowEvent::Other => WindowEventAction::Nothing,
        }
    }

    /// The loop is exiting: the game is in its last phase.
    pub fn on_exiting(&mut self)
        ensures
            *final(self) == (LoopState { game_phase: GamePhase::Exit, ..*old(self) }),
    {
        self.game_phase = GamePhase::Exit;
    }
}

/// Whether the loop exits after asking the game: only when exit was
/// requested and the game confirms it.
pub fn exits_at_frame_start(ask_exit: bool, answer: ShouldExit) -> (exit: bool)
    ensures
        exit == (ask_exit && answer == ShouldExit::Yes),
{
    ask_exit && answer.should_exit()
}

/// The update callbacks run in order: a step never goes back to the update
/// callback, the late update is always followed by the end, and a frame ends
/// with `Yes` exactly after an error whose handler asked to exit.
pub proof fn lemma_update_order(done: UpdateCallback, result: CallbackResult, due: bool)
    ensures
        spec_next_update_step(done, result, due) != UpdateStep::Run(UpdateCallback::Update),
        done == UpdateCallback::LateUpdate ==> spec_next_update_step(done, result, due) is Finish,
        (spec_next_update_step(done, result, due) == UpdateStep::Finish(ShouldExit::Yes))
            == exits_on(result),
{
}

/// An error whose handler does not ask to exit changes nothing: the next
/// step is the one after the same callback succeeded. So after the update
/// or a fixed update, a due fixed update runs next unless the game exits,
/// and the late update runs once none is due.
pub proof fn lemma_handled_error_keeps_order(done: UpdateCallback, result: CallbackResult, due: bool)
    requires
        !exits_on(result),
    ensures
        spec_next_update_step(done, result, due) == spec_next_update_step(
            done,
            CallbackResult::Succeeded,
            due,
        ),
        done != UpdateCallback::LateUpdate && due ==> spec_next_update_step(done, result, due)
            == UpdateStep::Run(UpdateCallback::FixedUpdate),
        done != UpdateCallback::LateUpdate && !due ==> spec_next_update_step(done, result, due)
            == UpdateStep::Run(UpdateCallback::LateUpdate),
{
}

/// Whether a window event is a press of a key or of a mouse button.
pub open spec fn is_press(event: WindowEvent) -> bool {
    event == WindowEvent::KeyPressed || event == WindowEvent::MouseButtonPressed
}

/// Whether a window event is a release of a key or of a mouse button.
pub open spec fn is_release(event: WindowEvent) -> bool {
    event == WindowEvent::KeyReleased || event == WindowEvent::MouseButtonReleased
}

/// Whether a window event is about a key.
pub open spec fn is_key_event(event: WindowEvent) -> bool {
    event == WindowEvent::KeyPressed || event == WindowEvent::KeyReleased
}

/// Whether an action presses a key or a mouse button.
pub open spec fn presses(action: WindowEventAction) -> bool {
    action == WindowEventAction::PressKey || action == WindowEventAction::PressMouseButton
}

/// Whether an action releases a key or a mouse button.
pub open spec fn releases(action: WindowEventAction) -> bool {
    action == WindowEventAction::ReleaseKey || action == WindowEventAction::ReleaseMouseButton
}

/// Whether an action is about a key.
pub open spec fn is_key_action(action: WindowEventAction) -> bool {
    action == WindowEventAction::PressKey || action == WindowEventAction::ReleaseKey
}

/// Window events are told apart: a press gives a press action and a
/// release a release action, of the same device (key or mouse button); no
/// two different events give the same action, except those that need none
/// (cursor entering or leaving, other events); and a resize carries its
/// size.
pub proof fn lemma_window_events_told_apart(a: WindowEvent, b: WindowEvent)
    ensures
        is_press(a) ==> presses(window_event_action(a)),
        is_release(a) ==> releases(window_event_action(a)),
        (is_press(a) || is_release(a)) ==> (is_key_event(a) <==> is_key_action(window_event_action(a))),
        window_event_action(a) == window_event_action(b) && a != b ==> window_event_action(a)
            == WindowEventAction::Nothing,
        a matches WindowEvent::Resized(w, h) ==> window_event_action(a) == WindowEventAction::Resize(w, h),
{
}

} // verus!
