//! Host input messages and the steps that carry them out.
use crate::geometry::Point;
use crate::input::{
    AppLifecycle, DispatchEventResult, HostMouseButton, HostTouchPhase, ImeEvent, KeyEvent,
    Keystroke, MouseButton, PlatformInput, RoutedInput, ScrollDelta, ScrollUnit, TouchPhase,
    WindowAppearance, WindowTheme,
};
use crate::input_state::{
    record_dispatch, record_keyboard_dispatch, record_pointer_dispatch, record_text_input,
    GpuiInputState, InputView,
};
use crate::keys::{ascii_lowercase, key_name, ButtonState, Capslock, LogicalKey, Modifiers};
use crate::runtime::ContextBinding;
use crate::scalar::Scalar;
use crate::text::utf16_range;
use std::ops::Range;
use std::path::PathBuf;
use vstd::prelude::*;

verus! {

/// A file dragged over or dropped on a host window.
pub enum FileEvent {
    /// The file is over the window.
    Hovered { window: u64, path: PathBuf },
    /// The file was dropped.
    Dropped { window: u64, path: PathBuf },
    /// The file left the window.
    Canceled { window: u64 },
}

/// An input message of the host.
pub enum HostEvent {
    Lifecycle(AppLifecycle),
    CloseRequested { window: u64 },
    Moved { window: u64 },
    ThemeChanged { window: u64, theme: WindowTheme },
    CursorMoved { window: u64, position: Point },
    CursorEntered { window: u64 },
    CursorLeft { window: u64 },
    Focus { window: u64, focused: bool },
    Button { window: u64, button: HostMouseButton, state: ButtonState },
    Wheel { window: u64, unit: ScrollUnit, x: Scalar, y: Scalar, phase: HostTouchPhase },
    Pinch { amount: Scalar },
    File(FileEvent),
    Key(KeyEvent),
    Ime(ImeEvent),
}

/// The input messages of one frame, by kind, each kind in its order of arrival.
pub struct InputMessages {
    pub lifecycle: Vec<HostEvent>,
    pub close_requested: Vec<HostEvent>,
    pub moved: Vec<HostEvent>,
    pub theme_changed: Vec<HostEvent>,
    pub cursors: Vec<HostEvent>,
    pub cursor_entered: Vec<HostEvent>,
    pub cursor_left: Vec<HostEvent>,
    pub window_focus: Vec<HostEvent>,
    pub buttons: Vec<HostEvent>,
    pub wheels: Vec<HostEvent>,
    pub pinches: Vec<HostEvent>,
    pub files: Vec<HostEvent>,
    pub keys: Vec<HostEvent>,
    pub ime: Vec<HostEvent>,
}

impl InputMessages {
    /// The messages in the order in which they are routed.
    pub fn in_order(self) -> (r: Vec<HostEvent>)
        ensures
            r@ == self.lifecycle@ + self.close_requested@ + self.moved@ + self.theme_changed@
                + self.cursors@ + self.cursor_entered@ + self.cursor_left@ + self.window_focus@
                + self.buttons@ + self.wheels@ + self.pinches@ + self.files@ + self.keys@
                + self.ime@,
    {
        let mut rest = self;
        let mut out: Vec<HostEvent> = Vec::new();
        out.append(&mut rest.lifecycle);
        out.append(&mut rest.close_requested);
        out.append(&mut rest.moved);
        out.append(&mut rest.theme_changed);
        out.append(&mut rest.cursors);
        out.append(&mut rest.cursor_entered);
        out.append(&mut rest.cursor_left);
        out.append(&mut rest.window_focus);
        out.append(&mut rest.buttons);
        out.append(&mut rest.wheels);
        out.append(&mut rest.pinches);
        out.append(&mut rest.files);
        out.append(&mut rest.keys);
        out.append(&mut rest.ime);
        out
    }
}

/// A key on its way to a root.
pub struct KeyPress {
    /// The keystroke.
    pub keystroke: Keystroke,
    /// Whether it went down or came up.
    pub state: ButtonState,
    /// Whether the press repeats a held key.
    pub is_held: bool,
    /// The text it produced.
    pub text: Option<String>,
}

/// The text of a key that was delivered, waiting for the answer.
pub struct PendingText {
    /// Whether the key went down or came up.
    pub state: ButtonState,
    /// The modifiers held.
    pub modifiers: Modifiers,
    /// The text it produced.
    pub text: Option<String>,
}

impl PendingText {
    /// Whether a key's text goes into a text field: it went down, nothing stopped
    /// it, and it is no shortcut. Control counts as a shortcut unless alt is held
    /// with it, as on layouts that reach characters that way.
    pub open spec fn inserts(self, result: DispatchEventResult) -> bool {
        &&& self.state == ButtonState::Pressed
        &&& result.propagate
        &&& !self.modifiers.platform
        &&& !self.modifiers.control || self.modifiers.alt
    }

    /// The text to insert once the key was answered.
    pub fn to_insert(self, result: DispatchEventResult) -> (r: Option<String>)
        ensures
            r == (if self.inserts(result) {
                self.text
            } else {
                None
            }),
    {
        let pressed: bool = match self.state {
            ButtonState::Pressed => true,
            ButtonState::Released => false,
        };
        if pressed && result.propagate && !self.modifiers.platform && (!self.modifiers.control
            || self.modifiers.alt) {
            self.text
        } else {
            None
        }
    }
}

impl KeyPress {
    /// The key as a root receives it, and the text that may follow.
    pub fn deliver(self, prefer_character_input: bool) -> (r: (PlatformInput, PendingText))
        ensures
            r.0 == (match self.state {
                ButtonState::Pressed => PlatformInput::KeyDown {
                    keystroke: self.keystroke,
                    is_held: self.is_held,
                    prefer_character_input,
                },
                ButtonState::Released => PlatformInput::KeyUp { keystroke: self.keystroke },
            }),
            r.1 == (PendingText {
                state: self.state,
                modifiers: self.keystroke.modifiers,
                text: self.text,
            }),
    {
        let pending = PendingText {
            state: self.state,
            modifiers: self.keystroke.modifiers,
            text: self.text,
        };
        let input = match self.state {
            ButtonState::Pressed => PlatformInput::KeyDown {
                keystroke: self.keystroke,
                is_held: self.is_held,
                prefer_character_input,
            },
            ButtonState::Released => PlatformInput::KeyUp { keystroke: self.keystroke },
        };
        (input, pending)
    }
}

/// A step of text composition on its way to a root.
pub enum ImeStep {
    /// Show text being composed, with the cursor as a range of UTF-16 units.
    Preedit { value: String, selected: Option<Range<usize>> },
    /// Insert accepted text.
    Commit { value: String },
    /// Ask whether there is a text field.
    Enabled,
    /// Drop the composition.
    Disabled,
}

/// One thing to do for an input message, in order.
pub enum InputStep {
    /// Set a root's activity.
    SetActive { id: u64, active: bool },
    /// Ask a root whether it may close with its window.
    AskClose { id: u64, window: u64 },
    /// Tell a root that its window moved.
    NotifyMoved { id: u64 },
    /// Set a root's appearance.
    SetAppearance { id: u64, appearance: WindowAppearance },
    /// Tell a root whether the pointer is over its window.
    SetHovered { id: u64, hovered: bool },
    /// Set the keyboard state a root reports.
    SetKeyboard { id: u64, modifiers: Modifiers, capslock: Capslock },
    /// Deliver pointer input; the answer counts for the window, if there is one.
    Pointer { id: u64, claim: Option<u64>, input: RoutedInput },
    /// Deliver a change of modifiers.
    Keyboard { id: u64, input: RoutedInput },
    /// Set the keyboard state a root reports, then deliver a key.
    Key { id: u64, capslock: Capslock, press: KeyPress },
    /// Deliver a step of text composition.
    Ime { id: u64, step: ImeStep },
    /// Drop the claim on a window's pointer.
    ReleasePointer { window: u64 },
}

/// What a step's answer counts for.
#[derive(Clone, Copy, Debug, PartialEq, Eq, Structural)]
pub enum StepRecord {
    /// For nothing.
    Nothing,
    /// For the pointer of a window.
    Pointer { window: u64 },
    /// For a pointer that belongs to no window.
    Unbound,
    /// For the keyboard.
    Keyboard,
    /// For the keyboard, with the text that may follow.
    Key,
    /// For text composition.
    Text,
    /// It drops the claim on the pointer of a window.
    Release { window: u64 },
}

/// The answer to a step.
#[derive(Clone, Copy, Debug, PartialEq, Eq, Structural)]
pub struct StepAnswer {
    /// What the root answered to an input event.
    pub result: DispatchEventResult,
    /// Whether text reached a text field.
    pub handled: bool,
}

impl InputStep {
    /// What the step's answer counts for.
    pub open spec fn record_spec(self) -> StepRecord {
        match self {
            InputStep::Pointer { claim: Some(window), .. } => StepRecord::Pointer { window },
            InputStep::Pointer { claim: None, .. } => StepRecord::Unbound,
            InputStep::Keyboard { .. } => StepRecord::Keyboard,
            InputStep::Key { .. } => StepRecord::Key,
            InputStep::Ime { .. } => StepRecord::Text,
            InputStep::ReleasePointer { window } => StepRecord::Release { window },
            _ => StepRecord::Nothing,
        }
    }

    /// What the step's answer counts for.
    pub fn record(&self) -> (r: StepRecord)
        ensures
            r == self.record_spec(),
    {
        match self {
            InputStep::Pointer { claim: Some(window), .. } => StepRecord::Pointer {
                window: *window,
            },
            InputStep::Pointer { claim: None, .. } => StepRecord::Unbound,
            InputStep::Keyboard { .. } => StepRecord::Keyboard,
            InputStep::Key { .. } => StepRecord::Key,
            InputStep::Ime { .. } => StepRecord::Text,
            InputStep::ReleasePointer { window } => StepRecord::Release { window: *window },
            _ => StepRecord::Nothing,
        }
    }
}

/// Input ownership after a step was answered.
pub open spec fn recorded(state: InputView, record: StepRecord, answer: StepAnswer) -> InputView {
    match record {
        StepRecord::Nothing => state,
        StepRecord::Pointer { window } => state.after_pointer(window, answer.result),
        StepRecord::Unbound => state.after_dispatch(answer.result),
        StepRecord::Keyboard => state.after_keyboard(answer.result),
        StepRecord::Key => state.after_keyboard(answer.result).after_text(answer.handled),
        StepRecord::Text => state.after_text(answer.handled),
        StepRecord::Release { window } => state.released(window),
    }
}

/// Records the answer to a step.
pub fn record_answer(record: StepRecord, answer: StepAnswer, state: &mut GpuiInputState)
    ensures
        final(state)@ == recorded(old(state)@, record, answer),
{
    match record {
        StepRecord::Nothing => {},
        StepRecord::Pointer { window } => record_pointer_dispatch(window, answer.result, state),
        StepRecord::Unbound => record_dispatch(answer.result, state),
        StepRecord::Keyboard => record_keyboard_dispatch(answer.result, state),
        StepRecord::Key => {
            record_keyboard_dispatch(answer.result, state);
            record_text_input(answer.handled, state);
        },
        StepRecord::Text => record_text_input(answer.handled, state),
        StepRecord::Release { window } => state.release_pointer(window),
    }
}

/// Input ownership after steps were answered one by one.
pub open spec fn recorded_all(
    state: InputView,
    steps: Seq<InputStep>,
    answers: Seq<StepAnswer>,
) -> InputView
    decreases steps.len(),
{
    if steps.len() == 0 {
        state
    } else {
        recorded(
            recorded_all(state, steps.drop_last(), answers),
            steps.last().record_spec(),
            answers[steps.len() - 1],
        )
    }
}

/// The steps for a list of roots, those of each root together.
pub open spec fn steps_for(ids: Seq<u64>, each: spec_fn(u64) -> Seq<InputStep>) -> Seq<InputStep>
    decreases ids.len(),
{
    if ids.len() == 0 {
        Seq::empty()
    } else {
        steps_for(ids.drop_last(), each) + each(ids.last())
    }
}

pub proof fn lemma_steps_for_take(ids: Seq<u64>, count: int, each: spec_fn(u64) -> Seq<InputStep>)
    requires
        0 <= count < ids.len(),
    ensures
        steps_for(ids.take(count + 1), each) == steps_for(ids.take(count), each) + each(ids[count]),
{
    let next = ids.take(count + 1);
    assert(next.drop_last() =~= ids.take(count));
    assert(next.last() == ids[count]);
}

pub proof fn lemma_steps_for_all(ids: Seq<u64>, each: spec_fn(u64) -> Seq<InputStep>)
    ensures
        steps_for(ids.take(0), each) == Seq::<InputStep>::empty(),
        steps_for(ids.take(ids.len() as int), each) == steps_for(ids, each),
{
    assert(ids.take(ids.len() as int) =~= ids);
}

/// A message as every root under it hears of it.
pub enum RootMessage {
    /// The application became active or not.
    Active { active: bool },
    /// The window is about to close.
    Close { window: u64 },
    /// The window moved.
    Moved,
    /// The window's appearance changed.
    Appearance { appearance: WindowAppearance },
    /// The pointer came over the window.
    Entered,
    /// The pointer left the window.
    Left { window: u64, modifiers: Modifiers },
    /// A button went down.
    ButtonDown { window: u64, button: MouseButton, modifiers: Modifiers, click_count: usize },
    /// A button came up.
    ButtonUp { window: u64, button: MouseButton, modifiers: Modifiers, click_count: usize },
    /// The wheel moved.
    Wheel { window: u64, delta: ScrollDelta, modifiers: Modifiers, phase: TouchPhase },
    /// The keyboard state changed.
    Keyboard { modifiers: Modifiers, capslock: Capslock },
    /// A file came over the window.
    FileEntered { window: u64, path: PathBuf },
    /// A file was dropped: it enters before it is submitted.
    FileDropped { window: u64, path: PathBuf },
    /// A file was taken away.
    FileExited { window: u64 },
}

impl RootMessage {
    /// The steps that tell one root.
    pub open spec fn steps(self, id: u64) -> Seq<InputStep> {
        match self {
            RootMessage::Active { active } => seq![InputStep::SetActive { id, active }],
            RootMessage::Close { window } => seq![InputStep::AskClose { id, window }],
            RootMessage::Moved => seq![InputStep::NotifyMoved { id }],
            RootMessage::Appearance { appearance } => seq![
                InputStep::SetAppearance { id, appearance },
            ],
            RootMessage::Entered => seq![InputStep::SetHovered { id, hovered: true }],
            RootMessage::Left { window, modifiers } => seq![
                InputStep::SetHovered { id, hovered: false },
                pointer_step(id, window, RoutedInput::CursorExit { modifiers }),
            ],
            RootMessage::ButtonDown { window, button, modifiers, click_count } => seq![
                pointer_step(id, window, RoutedInput::ButtonDown { button, modifiers, click_count }),
            ],
            RootMessage::ButtonUp { window, button, modifiers, click_count } => seq![
                pointer_step(id, window, RoutedInput::ButtonUp { button, modifiers, click_count }),
            ],
            RootMessage::Wheel { window, delta, modifiers, phase } => seq![
                pointer_step(id, window, RoutedInput::Wheel { delta, modifiers, phase }),
            ],
            RootMessage::Keyboard { modifiers, capslock } => seq![
                InputStep::SetKeyboard { id, modifiers, capslock },
                InputStep::Keyboard {
                    id,
                    input: RoutedInput::ModifiersChanged { modifiers, capslock },
                },
            ],
            RootMessage::FileEntered { window, path } => seq![
                pointer_step(id, window, RoutedInput::FileEntered { path }),
            ],
            RootMessage::FileDropped { window, path } => seq![
                pointer_step(id, window, RoutedInput::FileEntered { path }),
                pointer_step(id, window, RoutedInput::FileSubmit),
            ],
            RootMessage::FileExited { window } => seq![
                pointer_step(id, window, RoutedInput::FileExited),
            ],
        }
    }

    /// The steps that tell a root, for each root.
    pub open spec fn each(self) -> spec_fn(u64) -> Seq<InputStep> {
        |id: u64| self.steps(id)
    }

    /// Builds the steps that tell one root.
    fn build(&self, id: u64) -> (r: Vec<InputStep>)
        ensures
            r@ == self.steps(id),
    {
        let mut steps: Vec<InputStep> = Vec::new();
        match self {
            RootMessage::Active { active } => steps.push(
                InputStep::SetActive { id, active: *active },
            ),
            RootMessage::Close { window } => steps.push(
                InputStep::AskClose { id, window: *window },
            ),
            RootMessage::Moved => steps.push(InputStep::NotifyMoved { id }),
            RootMessage::Appearance { appearance } => steps.push(
                InputStep::SetAppearance { id, appearance: *appearance },
            ),
            RootMessage::Entered => steps.push(InputStep::SetHovered { id, hovered: true }),
            RootMessage::Left { window, modifiers } => {
                steps.push(InputStep::SetHovered { id, hovered: false });
                let input = RoutedInput::CursorExit { modifiers: *modifiers };
                steps.push(InputStep::Pointer { id, claim: Some(*window), input });
            },
            RootMessage::ButtonDown { window, button, modifiers, click_count } => {
                let input = RoutedInput::ButtonDown {
                    button: *button,
                    modifiers: *modifiers,
                    click_count: *click_count,
                };
                steps.push(InputStep::Pointer { id, claim: Some(*window), input });
            },
            RootMessage::ButtonUp { window, button, modifiers, click_count } => {
                let input = RoutedInput::ButtonUp {
                    button: *button,
                    modifiers: *modifiers,
                    click_count: *click_count,
                };
                steps.push(InputStep::Pointer { id, claim: Some(*window), input });
            },
            RootMessage::Wheel { window, delta, modifiers, phase } => {
                let input = RoutedInput::Wheel {
                    delta: *delta,
                    modifiers: *modifiers,
                    phase: *phase,
                };
                steps.push(InputStep::Pointer { id, claim: Some(*window), input });
            },
            RootMessage::Keyboard { modifiers, capslock } => {
                let modifiers = *modifiers;
                let capslock = *capslock;
                steps.push(InputStep::SetKeyboard { id, modifiers, capslock });
                let input = RoutedInput::ModifiersChanged { modifiers, capslock };
                steps.push(InputStep::Keyboard { id, input });
            },
            RootMessage::FileEntered { window, path } => {
                let input = RoutedInput::FileEntered { path: path.clone() };
                steps.push(InputStep::Pointer { id, claim: Some(*window), input });
            },
            RootMessage::FileDropped { window, path } => {
                let input = RoutedInput::FileEntered { path: path.clone() };
                steps.push(InputStep::Pointer { id, claim: Some(*window), input });
                let input = RoutedInput::FileSubmit;
                steps.push(InputStep::Pointer { id, claim: Some(*window), input });
            },
            RootMessage::FileExited { window } => {
                let input = RoutedInput::FileExited;
                steps.push(InputStep::Pointer { id, claim: Some(*window), input });
            },
        }
        steps
    }
}

/// A step that delivers pointer input of a window to a root.
pub open spec fn pointer_step(id: u64, window: u64, input: RoutedInput) -> InputStep {
    InputStep::Pointer { id, claim: Some(window), input }
}

/// Builds the steps that tell roots of a message, one root after another.
fn build_steps(ids: &Vec<u64>, message: RootMessage) -> (r: Vec<InputStep>)
    ensures
        r@ == steps_for(ids@, message.each()),
{
    let mut steps: Vec<InputStep> = Vec::new();
    let mut index: usize = 0;
    proof {
        lemma_steps_for_all(ids@, message.each());
    }
    while index < ids.len()
        invariant
            index <= ids@.len(),
            steps@ == steps_for(ids@.take(index as int), message.each()),
        decreases ids@.len() - index,
    {
        proof {
            lemma_steps_for_take(ids@, index as int, message.each());
        }
        let mut next = message.build(ids[index]);
        steps.append(&mut next);
        index = index + 1;
    }
    proof {
        lemma_steps_for_all(ids@, message.each());
    }
    steps
}

/// The steps for a pointer that moved over roots of a window.
pub open spec fn move_steps(
    ids: Seq<u64>,
    window: u64,
    position: Point,
    modifiers: Modifiers,
    contexts: Map<u64, ContextBinding>,
) -> Seq<InputStep> {
    steps_for(
        ids,
        |id: u64|
            seq![
                InputStep::Pointer {
                    id,
                    claim: Some(window),
                    input: RoutedInput::CursorMove {
                        position,
                        viewport_origin: contexts[id].viewport.min,
                        modifiers,
                    },
                },
            ],
    )
}

/// The steps for a pointer that left a window.
pub open spec fn exit_steps(ids: Seq<u64>, window: u64, modifiers: Modifiers) -> Seq<InputStep> {
    steps_for(ids, RootMessage::Left { window, modifiers }.each()).push(
        InputStep::ReleasePointer { window },
    )
}

/// Builds the steps for a pointer that left a window.
pub fn build_exit_steps(ids: &Vec<u64>, window: u64, modifiers: Modifiers) -> (r: Vec<InputStep>)
    ensures
        r@ == exit_steps(ids@, window, modifiers),
{
    let mut steps = build_steps(ids, RootMessage::Left { window, modifiers });
    steps.push(InputStep::ReleasePointer { window });
    steps
}

/// The window a file event belongs to.
pub open spec fn file_window(event: FileEvent) -> u64 {
    match event {
        FileEvent::Hovered { window, .. } => window,
        FileEvent::Dropped { window, .. } => window,
        FileEvent::Canceled { window } => window,
    }
}

/// The steps that set the activity of roots.
pub open spec fn active_steps(ids: Seq<u64>, active: bool) -> Seq<InputStep> {
    steps_for(ids, RootMessage::Active { active }.each())
}

/// Builds the steps that set the activity of roots.
pub fn build_active_steps(ids: &Vec<u64>, active: bool) -> (r: Vec<InputStep>)
    ensures
        r@ == active_steps(ids@, active),
{
    build_steps(ids, RootMessage::Active { active })
}

/// The steps that ask roots whether they may close with their window.
pub open spec fn close_steps(ids: Seq<u64>, window: u64) -> Seq<InputStep> {
    steps_for(ids, RootMessage::Close { window }.each())
}

/// Builds the steps that ask roots whether they may close with their window.
pub fn build_close_steps(ids: &Vec<u64>, window: u64) -> (r: Vec<InputStep>)
    ensures
        r@ == close_steps(ids@, window),
{
    build_steps(ids, RootMessage::Close { window })
}

/// The steps that tell roots that their window moved.
pub open spec fn moved_steps(ids: Seq<u64>) -> Seq<InputStep> {
    steps_for(ids, RootMessage::Moved.each())
}

/// Builds the steps that tell roots that their window moved.
pub fn build_moved_steps(ids: &Vec<u64>) -> (r: Vec<InputStep>)
    ensures
        r@ == moved_steps(ids@),
{
    build_steps(ids, RootMessage::Moved)
}

/// The steps that set the appearance of roots.
pub open spec fn appearance_steps(ids: Seq<u64>, appearance: WindowAppearance) -> Seq<InputStep> {
    steps_for(ids, RootMessage::Appearance { appearance }.each())
}

/// Builds the steps that set the appearance of roots.
pub fn build_appearance_steps(ids: &Vec<u64>, appearance: WindowAppearance) -> (r: Vec<InputStep>)
    ensures
        r@ == appearance_steps(ids@, appearance),
{
    build_steps(ids, RootMessage::Appearance { appearance })
}

/// The steps that tell roots that the pointer is over their window.
pub open spec fn hover_steps(ids: Seq<u64>) -> Seq<InputStep> {
    steps_for(ids, RootMessage::Entered.each())
}

/// Builds the steps that tell roots that the pointer is over their window.
pub fn build_hover_steps(ids: &Vec<u64>) -> (r: Vec<InputStep>)
    ensures
        r@ == hover_steps(ids@),
{
    build_steps(ids, RootMessage::Entered)
}

/// The steps that deliver a press to roots of a window.
pub open spec fn button_down_steps(
    ids: Seq<u64>,
    window: u64,
    button: MouseButton,
    modifiers: Modifiers,
    click_count: usize,
) -> Seq<InputStep> {
    steps_for(ids, RootMessage::ButtonDown { window, button, modifiers, click_count }.each())
}

/// Builds the steps that deliver a press to roots of a window.
pub fn build_button_down_steps(
    ids: &Vec<u64>,
    window: u64,
    button: MouseButton,
    modifiers: Modifiers,
    click_count: usize,
) -> (r: Vec<InputStep>)
    ensures
        r@ == button_down_steps(ids@, window, button, modifiers, click_count),
{
    build_steps(ids, RootMessage::ButtonDown { window, button, modifiers, click_count })
}

/// The steps that deliver a release to roots of a window.
pub open spec fn button_up_steps(
    ids: Seq<u64>,
    window: u64,
    button: MouseButton,
    modifiers: Modifiers,
    click_count: usize,
) -> Seq<InputStep> {
    steps_for(ids, RootMessage::ButtonUp { window, button, modifiers, click_count }.each())
}

/// Builds the steps that deliver a release to roots of a window.
pub fn build_button_up_steps(
    ids: &Vec<u64>,
    window: u64,
    button: MouseButton,
    modifiers: Modifiers,
    click_count: usize,
) -> (r: Vec<InputStep>)
    ensures
        r@ == button_up_steps(ids@, window, button, modifiers, click_count),
{
    build_steps(ids, RootMessage::ButtonUp { window, button, modifiers, click_count })
}

/// The steps that deliver a wheel movement to roots of a window.
pub open spec fn wheel_steps(
    ids: Seq<u64>,
    window: u64,
    delta: ScrollDelta,
    modifiers: Modifiers,
    phase: TouchPhase,
) -> Seq<InputStep> {
    steps_for(ids, RootMessage::Wheel { window, delta, modifiers, phase }.each())
}

/// Builds the steps that deliver a wheel movement to roots of a window.
pub fn build_wheel_steps(
    ids: &Vec<u64>,
    window: u64,
    delta: ScrollDelta,
    modifiers: Modifiers,
    phase: TouchPhase,
) -> (r: Vec<InputStep>)
    ensures
        r@ == wheel_steps(ids@, window, delta, modifiers, phase),
{
    build_steps(ids, RootMessage::Wheel { window, delta, modifiers, phase })
}

/// The steps that give roots a new keyboard state.
pub open spec fn modifier_steps(
    ids: Seq<u64>,
    modifiers: Modifiers,
    capslock: Capslock,
) -> Seq<InputStep> {
    steps_for(ids, RootMessage::Keyboard { modifiers, capslock }.each())
}

/// Builds the steps that give roots a new keyboard state.
pub fn build_modifier_steps(
    ids: &Vec<u64>,
    modifiers: Modifiers,
    capslock: Capslock,
) -> (r: Vec<InputStep>)
    ensures
        r@ == modifier_steps(ids@, modifiers, capslock),
{
    build_steps(ids, RootMessage::Keyboard { modifiers, capslock })
}

/// The steps that bring a file over roots of a window.
pub open spec fn file_entered_steps(ids: Seq<u64>, window: u64, path: PathBuf) -> Seq<InputStep> {
    steps_for(ids, RootMessage::FileEntered { window, path }.each())
}

/// Builds the steps that bring a file over roots of a window.
pub fn build_file_entered_steps(ids: &Vec<u64>, window: u64, path: &PathBuf) -> (r: Vec<InputStep>)
    ensures
        r@ == file_entered_steps(ids@, window, *path),
{
    build_steps(ids, RootMessage::FileEntered { window, path: path.clone() })
}

/// The steps that drop a file on roots of a window: it enters before it
/// is submitted.
pub open spec fn file_dropped_steps(ids: Seq<u64>, window: u64, path: PathBuf) -> Seq<InputStep> {
    steps_for(ids, RootMessage::FileDropped { window, path }.each())
}

/// Builds the steps that drop a file on roots of a window: it enters before it
/// is submitted.
pub fn build_file_dropped_steps(ids: &Vec<u64>, window: u64, path: &PathBuf) -> (r: Vec<InputStep>)
    ensures
        r@ == file_dropped_steps(ids@, window, *path),
{
    build_steps(ids, RootMessage::FileDropped { window, path: path.clone() })
}

/// The steps that take a file away from roots of a window.
pub open spec fn file_exited_steps(ids: Seq<u64>, window: u64) -> Seq<InputStep> {
    steps_for(ids, RootMessage::FileExited { window }.each())
}

/// Builds the steps that take a file away from roots of a window.
pub fn build_file_exited_steps(ids: &Vec<u64>, window: u64) -> (r: Vec<InputStep>)
    ensures
        r@ == file_exited_steps(ids@, window),
{
    build_steps(ids, RootMessage::FileExited { window })
}

/// The steps for a button that went down or came up over roots of a window.
pub open spec fn button_steps(
    ids: Seq<u64>,
    window: u64,
    button: MouseButton,
    state: ButtonState,
    modifiers: Modifiers,
    click_count: usize,
) -> Seq<InputStep> {
    match state {
        ButtonState::Pressed => button_down_steps(ids, window, button, modifiers, click_count),
        ButtonState::Released => button_up_steps(ids, window, button, modifiers, click_count),
    }
}

/// The steps for a file over roots of a window.
pub open spec fn file_steps(ids: Seq<u64>, event: FileEvent) -> Seq<InputStep> {
    match event {
        FileEvent::Hovered { window, path } => file_entered_steps(ids, window, path),
        FileEvent::Dropped { window, path } => file_dropped_steps(ids, window, path),
        FileEvent::Canceled { window } => file_exited_steps(ids, window),
    }
}

/// The text a key is matched by: the text it produced, or else the character it
/// stands for.
pub open spec fn key_char_spec(event: KeyEvent) -> Option<Seq<char>> {
    match event.text {
        Some(text) => Some(text@),
        None => match event.logical_key {
            LogicalKey::Character(text) => Some(text@),
            _ => None,
        },
    }
}

/// Whether optional text reads as given.
pub open spec fn reads(text: Option<String>, expected: Option<Seq<char>>) -> bool {
    match (text, expected) {
        (Some(text), Some(expected)) => text@ == expected,
        (None, None) => true,
        _ => false,
    }
}

/// Whether a key on its way is the one of an event, under some modifiers.
pub open spec fn is_press_of(press: KeyPress, event: KeyEvent, modifiers: Modifiers) -> bool {
    &&& press.keystroke.modifiers == modifiers
    &&& key_name(event.logical_key) == Some(press.keystroke.key@)
    &&& reads(press.keystroke.key_char, key_char_spec(event))
    &&& reads(press.keystroke.physical_key, Some(ascii_lowercase(event.key_code@)))
    &&& press.state == event.state
    &&& press.is_held == event.repeat
    &&& match event.text {
        Some(text) => press.text matches Some(t) && t@ == text@,
        None => press.text is None,
    }
}

/// Whether a step delivers the key of an event to a root.
pub open spec fn is_key_step(
    step: InputStep,
    id: u64,
    event: KeyEvent,
    modifiers: Modifiers,
    capslock: Capslock,
) -> bool {
    step matches InputStep::Key { id: to, capslock: locked, press } && to == id && locked
        == capslock && is_press_of(press, event, modifiers)
}

/// Whether steps deliver the key of an event to roots.
pub open spec fn are_key_steps(
    steps: Seq<InputStep>,
    ids: Seq<u64>,
    event: KeyEvent,
    modifiers: Modifiers,
    capslock: Capslock,
) -> bool {
    &&& steps.len() == ids.len()
    &&& forall|i: int|
        0 <= i < ids.len() ==> #[trigger] is_key_step(steps[i], ids[i], event, modifiers, capslock)
}

/// Whether an optional range has the given ends.
pub open spec fn spans(range: Option<Range<usize>>, expected: Option<(nat, nat)>) -> bool {
    match expected {
        None => range is None,
        Some((first, last)) => range matches Some(r) && r.start == first && r.end == last,
    }
}

/// Whether a step of composition is the one of an event.
pub open spec fn is_ime_step(step: ImeStep, event: ImeEvent) -> bool {
    match event {
        ImeEvent::Preedit { value, cursor, .. } => {
            &&& step matches ImeStep::Preedit { value: shown, selected }
            &&& shown@ == value@
            &&& spans(
                selected,
                match cursor {
                    Some((start, end)) => utf16_range(value@, start as int, end as int),
                    None => None,
                },
            )
        },
        ImeEvent::Commit { value, .. } => step matches ImeStep::Commit { value: text } && text@
            == value@,
        ImeEvent::Enabled { .. } => step is Enabled,
        ImeEvent::Disabled { .. } => step is Disabled,
    }
}

/// Whether a step delivers a step of composition to a root.
pub open spec fn is_ime_delivery(step: InputStep, id: u64, event: ImeEvent) -> bool {
    step matches InputStep::Ime { id: to, step: ime } && to == id && is_ime_step(ime, event)
}

/// Whether steps deliver a step of composition to roots.
pub open spec fn are_ime_steps(steps: Seq<InputStep>, ids: Seq<u64>, event: ImeEvent) -> bool {
    &&& steps.len() == ids.len()
    &&& forall|i: int| 0 <= i < ids.len() ==> #[trigger] is_ime_delivery(steps[i], ids[i], event)
}

/// A shortcut inserts no text: not with the platform modifier, and not with control
/// unless alt is held too. Neither does a release or a key that was stopped.
pub proof fn law_shortcuts_insert_no_text(pending: PendingText, result: DispatchEventResult)
    ensures
        pending.modifiers.platform ==> !pending.inserts(result),
        pending.modifiers.control && !pending.modifiers.alt ==> !pending.inserts(result),
        pending.state == ButtonState::Released ==> !pending.inserts(result),
        !result.propagate ==> !pending.inserts(result),
        pending.state == ButtonState::Pressed && result.propagate && !pending.modifiers.platform
            && !pending.modifiers.control ==> pending.inserts(result),
        pending.state == ButtonState::Pressed && result.propagate && !pending.modifiers.platform
            && pending.modifiers.control && pending.modifiers.alt ==> pending.inserts(result),
{
}

/// Whether a step dispatches an event to a root, which may prevent the default.
pub open spec fn is_dispatch(step: InputStep) -> bool {
    step is Pointer || step is Keyboard || step is Key
}

/// Whether an answer claims the keyboard.
pub open spec fn claims_keyboard(record: StepRecord, answer: StepAnswer) -> bool {
    ||| (record is Keyboard || record is Key) && (!answer.result.propagate
        || answer.result.default_prevented)
    ||| (record is Key || record is Text) && answer.handled
}

/// However many steps are answered, a prevented default is reported exactly where
/// one of the dispatches prevented it, and the keyboard is wanted exactly where one
/// of the answers claims it.
pub proof fn law_answers_accumulate(
    state: InputView,
    steps: Seq<InputStep>,
    answers: Seq<StepAnswer>,
)
    requires
        steps.len() == answers.len(),
    ensures
        recorded_all(state, steps, answers).default_prevented <==> state.default_prevented
            || exists|i: int|
            0 <= i < steps.len() && is_dispatch(#[trigger] steps[i])
                && answers[i].result.default_prevented,
        recorded_all(state, steps, answers).wants_keyboard_input <==> state.wants_keyboard_input
            || exists|i: int|
            0 <= i < steps.len() && claims_keyboard(
                (#[trigger] steps[i]).record_spec(),
                answers[i],
            ),
        recorded_all(state, steps, answers).wants_pointer_input == state.wants_pointer_input,
{
    lemma_answers_accumulate(state, steps, answers);
}

proof fn lemma_answers_accumulate(
    state: InputView,
    steps: Seq<InputStep>,
    answers: Seq<StepAnswer>,
)
    requires
        steps.len() <= answers.len(),
    ensures
        recorded_all(state, steps, answers).default_prevented <==> state.default_prevented
            || exists|i: int|
            0 <= i < steps.len() && is_dispatch(#[trigger] steps[i])
                && answers[i].result.default_prevented,
        recorded_all(state, steps, answers).wants_keyboard_input <==> state.wants_keyboard_input
            || exists|i: int|
            0 <= i < steps.len() && claims_keyboard(
                (#[trigger] steps[i]).record_spec(),
                answers[i],
            ),
        recorded_all(state, steps, answers).wants_pointer_input == state.wants_pointer_input,
    decreases steps.len(),
{
    if steps.len() > 0 {
        let rest = steps.drop_last();
        lemma_answers_accumulate(state, rest, answers);
        let n = steps.len() - 1;
        assert(steps[n] == steps.last());
        assert(forall|i: int| 0 <= i < rest.len() ==> rest[i] == #[trigger] steps[i]);
        if exists|i: int|
            0 <= i < rest.len() && is_dispatch(#[trigger] rest[i])
                && answers[i].result.default_prevented {
            let i = choose|i: int|
                0 <= i < rest.len() && is_dispatch(#[trigger] rest[i])
                    && answers[i].result.default_prevented;
            assert(is_dispatch(steps[i]));
        }
        if exists|i: int|
            0 <= i < rest.len() && claims_keyboard((#[trigger] rest[i]).record_spec(), answers[i]) {
            let i = choose|i: int|
                0 <= i < rest.len() && claims_keyboard(
                    (#[trigger] rest[i]).record_spec(),
                    answers[i],
                );
            assert(claims_keyboard(steps[i].record_spec(), answers[i]));
        }
    }
}

/// Where each root gets one step, the steps are those of the roots in order.
pub proof fn lemma_one_step_each(ids: Seq<u64>, each: spec_fn(u64) -> Seq<InputStep>)
    requires
        forall|id: u64| (#[trigger] each(id)).len() == 1,
    ensures
        steps_for(ids, each).len() == ids.len(),
        forall|i: int| 0 <= i < ids.len() ==> #[trigger] steps_for(ids, each)[i] == each(ids[i])[0],
    decreases ids.len(),
{
    if ids.len() > 0 {
        let init = ids.drop_last();
        lemma_one_step_each(init, each);
        assert forall|i: int| 0 <= i < ids.len() implies #[trigger] steps_for(ids, each)[i] == each(
            ids[i],
        )[0] by {
            if i < init.len() {
                assert(init[i] == ids[i]);
                assert(steps_for(init, each)[i] == each(init[i])[0]);
            }
        }
    }
}

/// Where each root gets two steps, the steps are those of the roots in order, the two
/// of a root together.
pub proof fn lemma_two_steps_each(ids: Seq<u64>, each: spec_fn(u64) -> Seq<InputStep>)
    requires
        forall|id: u64| (#[trigger] each(id)).len() == 2,
    ensures
        steps_for(ids, each).len() == 2 * ids.len(),
        forall|i: int|
            #![trigger ids[i]]
            0 <= i < ids.len() ==> steps_for(ids, each)[2 * i] == each(ids[i])[0] && steps_for(
                ids,
                each,
            )[2 * i + 1] == each(ids[i])[1],
    decreases ids.len(),
{
    if ids.len() > 0 {
        let init = ids.drop_last();
        lemma_two_steps_each(init, each);
        assert forall|i: int|
            #![trigger ids[i]]
            0 <= i < ids.len() implies steps_for(ids, each)[2 * i] == each(ids[i])[0] && steps_for(
            ids,
            each,
        )[2 * i + 1] == each(ids[i])[1] by {
            if i < init.len() {
                assert(init[i] == ids[i]);
            }
        }
    }
}

/// An answer counts where its step belongs: a pointer step for the pointer of its
/// window, a key or a change of modifiers for the keyboard, text for the keyboard where
/// it reached a text field, and a release drops the claim of its window. Every dispatch
/// can prevent the default; what only tells a root something counts for nothing.
pub proof fn law_answers_count_where_they_belong(
    state: InputView,
    step: InputStep,
    answer: StepAnswer,
    window: u64,
)
    ensures
        ({
            let after = recorded(state, step.record_spec(), answer);
            let claiming = answer.result.pointer_hit || !answer.result.propagate
                || answer.result.default_prevented;
            &&& after.claims.contains(window) <==> match step {
                InputStep::Pointer { claim, .. } => state.claims.contains(window) || (claim == Some(
                    window,
                ) && claiming),
                InputStep::ReleasePointer { window: released } => state.claims.contains(window)
                    && released != window,
                _ => state.claims.contains(window),
            }
            &&& after.wants_keyboard_input <==> state.wants_keyboard_input || ((
            step is Keyboard || step is Key) && (!answer.result.propagate
                || answer.result.default_prevented)) || ((step is Key || step is Ime)
                && answer.handled)
            &&& after.default_prevented <==> state.default_prevented || ((step is Pointer
                || step is Keyboard || step is Key) && answer.result.default_prevented)
        }),
{
}

/// The text of a key goes into a text field exactly where the key went down, nothing
/// stopped it, the platform modifier is not held, and control is held only together
/// with alt.
pub proof fn law_text_is_inserted_unless_shortcut(
    pending: PendingText,
    result: DispatchEventResult,
)
    ensures
        pending.inserts(result) <==> pending.state is Pressed && result.propagate
            && !pending.modifiers.platform && (pending.modifiers.control ==> pending.modifiers.alt),
{
}

/// The messages of one kind stay together in the order they arrived, and the kinds come
/// one after another: the lifecycle, what happened to windows, the pointer, focus,
/// buttons, wheel, pinches, files, keys and text.
pub proof fn law_messages_are_routed_kind_by_kind(messages: InputMessages, routed: Vec<HostEvent>)
    requires
        call_ensures(InputMessages::in_order, (messages,), routed),
    ensures
        routed@.subrange((0) as int, (messages.lifecycle@.len()) as int)
            == messages.lifecycle@,
        routed@.subrange((messages.lifecycle@.len()) as int, (messages.lifecycle@.len() + messages.close_requested@.len()) as int)
            == messages.close_requested@,
        routed@.subrange((messages.lifecycle@.len() + messages.close_requested@.len()) as int, (messages.lifecycle@.len() + messages.close_requested@.len() + messages.moved@.len()) as int)
            == messages.moved@,
        routed@.subrange((messages.lifecycle@.len() + messages.close_requested@.len() + messages.moved@.len()) as int, (messages.lifecycle@.len() + messages.close_requested@.len() + messages.moved@.len() + messages.theme_changed@.len()) as int)
            == messages.theme_changed@,
        routed@.subrange((messages.lifecycle@.len() + messages.close_requested@.len() + messages.moved@.len() + messages.theme_changed@.len()) as int, (messages.lifecycle@.len() + messages.close_requested@.len() + messages.moved@.len() + messages.theme_changed@.len() + messages.cursors@.len()) as int)
            == messages.cursors@,
        routed@.subrange((messages.lifecycle@.len() + messages.close_requested@.len() + messages.moved@.len() + messages.theme_changed@.len() + messages.cursors@.len()) as int, (messages.lifecycle@.len() + messages.close_requested@.len() + messages.moved@.len() + messages.theme_changed@.len() + messages.cursors@.len() + messages.cursor_entered@.len()) as int)
            == messages.cursor_entered@,
        routed@.subrange((messages.lifecycle@.len() + messages.close_requested@.len() + messages.moved@.len() + messages.theme_changed@.len() + messages.cursors@.len() + messages.cursor_entered@.len()) as int, (messages.lifecycle@.len() + messages.close_requested@.len() + messages.moved@.len() + messages.theme_changed@.len() + messages.cursors@.len() + messages.cursor_entered@.len() + messages.cursor_left@.len()) as int)
            == messages.cursor_left@,
        routed@.subrange((messages.lifecycle@.len() + messages.close_requested@.len() + messages.moved@.len() + messages.theme_changed@.len() + messages.cursors@.len() + messages.cursor_entered@.len() + messages.cursor_left@.len()) as int, (messages.lifecycle@.len() + messages.close_requested@.len() + messages.moved@.len() + messages.theme_changed@.len() + messages.cursors@.len() + messages.cursor_entered@.len() + messages.cursor_left@.len() + messages.window_focus@.len()) as int)
            == messages.window_focus@,
        routed@.subrange((messages.lifecycle@.len() + messages.close_requested@.len() + messages.moved@.len() + messages.theme_changed@.len() + messages.cursors@.len() + messages.cursor_entered@.len() + messages.cursor_left@.len() + messages.window_focus@.len()) as int, (messages.lifecycle@.len() + messages.close_requested@.len() + messages.moved@.len() + messages.theme_changed@.len() + messages.cursors@.len() + messages.cursor_entered@.len() + messages.cursor_left@.len() + messages.window_focus@.len() + messages.buttons@.len()) as int)
            == messages.buttons@,
        routed@.subrange((messages.lifecycle@.len() + messages.close_requested@.len() + messages.moved@.len() + messages.theme_changed@.len() + messages.cursors@.len() + messages.cursor_entered@.len() + messages.cursor_left@.len() + messages.window_focus@.len() + messages.buttons@.len()) as int, (messages.lifecycle@.len() + messages.close_requested@.len() + messages.moved@.len() + messages.theme_changed@.len() + messages.cursors@.len() + messages.cursor_entered@.len() + messages.cursor_left@.len() + messages.window_focus@.len() + messages.buttons@.len() + messages.wheels@.len()) as int)
            == messages.wheels@,
        routed@.subrange((messages.lifecycle@.len() + messages.close_requested@.len() + messages.moved@.len() + messages.theme_changed@.len() + messages.cursors@.len() + messages.cursor_entered@.len() + messages.cursor_left@.len() + messages.window_focus@.len() + messages.buttons@.len() + messages.wheels@.len()) as int, (messages.lifecycle@.len() + messages.close_requested@.len() + messages.moved@.len() + messages.theme_changed@.len() + messages.cursors@.len() + messages.cursor_entered@.len() + messages.cursor_left@.len() + messages.window_focus@.len() + messages.buttons@.len() + messages.wheels@.len() + messages.pinches@.len()) as int)
            == messages.pinches@,
        routed@.subrange((messages.lifecycle@.len() + messages.close_requested@.len() + messages.moved@.len() + messages.theme_changed@.len() + messages.cursors@.len() + messages.cursor_entered@.len() + messages.cursor_left@.len() + messages.window_focus@.len() + messages.buttons@.len() + messages.wheels@.len() + messages.pinches@.len()) as int, (messages.lifecycle@.len() + messages.close_requested@.len() + messages.moved@.len() + messages.theme_changed@.len() + messages.cursors@.len() + messages.cursor_entered@.len() + messages.cursor_left@.len() + messages.window_focus@.len() + messages.buttons@.len() + messages.wheels@.len() + messages.pinches@.len() + messages.files@.len()) as int)
            == messages.files@,
        routed@.subrange((messages.lifecycle@.len() + messages.close_requested@.len() + messages.moved@.len() + messages.theme_changed@.len() + messages.cursors@.len() + messages.cursor_entered@.len() + messages.cursor_left@.len() + messages.window_focus@.len() + messages.buttons@.len() + messages.wheels@.len() + messages.pinches@.len() + messages.files@.len()) as int, (messages.lifecycle@.len() + messages.close_requested@.len() + messages.moved@.len() + messages.theme_changed@.len() + messages.cursors@.len() + messages.cursor_entered@.len() + messages.cursor_left@.len() + messages.window_focus@.len() + messages.buttons@.len() + messages.wheels@.len() + messages.pinches@.len() + messages.files@.len() + messages.keys@.len()) as int)
            == messages.keys@,
        routed@.subrange((messages.lifecycle@.len() + messages.close_requested@.len() + messages.moved@.len() + messages.theme_changed@.len() + messages.cursors@.len() + messages.cursor_entered@.len() + messages.cursor_left@.len() + messages.window_focus@.len() + messages.buttons@.len() + messages.wheels@.len() + messages.pinches@.len() + messages.files@.len() + messages.keys@.len()) as int, (messages.lifecycle@.len() + messages.close_requested@.len() + messages.moved@.len() + messages.theme_changed@.len() + messages.cursors@.len() + messages.cursor_entered@.len() + messages.cursor_left@.len() + messages.window_focus@.len() + messages.buttons@.len() + messages.wheels@.len() + messages.pinches@.len() + messages.files@.len() + messages.keys@.len() + messages.ime@.len()) as int)
            == messages.ime@,
        routed@.len() == messages.lifecycle@.len() + messages.close_requested@.len() + messages.moved@.len() + messages.theme_changed@.len() + messages.cursors@.len() + messages.cursor_entered@.len() + messages.cursor_left@.len() + messages.window_focus@.len() + messages.buttons@.len() + messages.wheels@.len() + messages.pinches@.len() + messages.files@.len() + messages.keys@.len() + messages.ime@.len(),
{
    assert(routed@.subrange((0) as int, (messages.lifecycle@.len()) as int) =~= messages.lifecycle@);
    assert(routed@.subrange((messages.lifecycle@.len()) as int, (messages.lifecycle@.len() + messages.close_requested@.len()) as int) =~= messages.close_requested@);
    assert(routed@.subrange((messages.lifecycle@.len() + messages.close_requested@.len()) as int, (messages.lifecycle@.len() + messages.close_requested@.len() + messages.moved@.len()) as int) =~= messages.moved@);
    assert(routed@.subrange((messages.lifecycle@.len() + messages.close_requested@.len() + messages.moved@.len()) as int, (messages.lifecycle@.len() + messages.close_requested@.len() + messages.moved@.len() + messages.theme_changed@.len()) as int) =~= messages.theme_changed@);
    assert(routed@.subrange((messages.lifecycle@.len() + messages.close_requested@.len() + messages.moved@.len() + messages.theme_changed@.len()) as int, (messages.lifecycle@.len() + messages.close_requested@.len() + messages.moved@.len() + messages.theme_changed@.len() + messages.cursors@.len()) as int) =~= messages.cursors@);
    assert(routed@.subrange((messages.lifecycle@.len() + messages.close_requested@.len() + messages.moved@.len() + messages.theme_changed@.len() + messages.cursors@.len()) as int, (messages.lifecycle@.len() + messages.close_requested@.len() + messages.moved@.len() + messages.theme_changed@.len() + messages.cursors@.len() + messages.cursor_entered@.len()) as int) =~= messages.cursor_entered@);
    assert(routed@.subrange((messages.lifecycle@.len() + messages.close_requested@.len() + messages.moved@.len() + messages.theme_changed@.len() + messages.cursors@.len() + messages.cursor_entered@.len()) as int, (messages.lifecycle@.len() + messages.close_requested@.len() + messages.moved@.len() + messages.theme_changed@.len() + messages.cursors@.len() + messages.cursor_entered@.len() + messages.cursor_left@.len()) as int) =~= messages.cursor_left@);
    assert(routed@.subrange((messages.lifecycle@.len() + messages.close_requested@.len() + messages.moved@.len() + messages.theme_changed@.len() + messages.cursors@.len() + messages.cursor_entered@.len() + messages.cursor_left@.len()) as int, (messages.lifecycle@.len() + messages.close_requested@.len() + messages.moved@.len() + messages.theme_changed@.len() + messages.cursors@.len() + messages.cursor_entered@.len() + messages.cursor_left@.len() + messages.window_focus@.len()) as int) =~= messages.window_focus@);
    assert(routed@.subrange((messages.lifecycle@.len() + messages.close_requested@.len() + messages.moved@.len() + messages.theme_changed@.len() + messages.cursors@.len() + messages.cursor_entered@.len() + messages.cursor_left@.len() + messages.window_focus@.len()) as int, (messages.lifecycle@.len() + messages.close_requested@.len() + messages.moved@.len() + messages.theme_changed@.len() + messages.cursors@.len() + messages.cursor_entered@.len() + messages.cursor_left@.len() + messages.window_focus@.len() + messages.buttons@.len()) as int) =~= messages.buttons@);
    assert(routed@.subrange((messages.lifecycle@.len() + messages.close_requested@.len() + messages.moved@.len() + messages.theme_changed@.len() + messages.cursors@.len() + messages.cursor_entered@.len() + messages.cursor_left@.len() + messages.window_focus@.len() + messages.buttons@.len()) as int, (messages.lifecycle@.len() + messages.close_requested@.len() + messages.moved@.len() + messages.theme_changed@.len() + messages.cursors@.len() + messages.cursor_entered@.len() + messages.cursor_left@.len() + messages.window_focus@.len() + messages.buttons@.len() + messages.wheels@.len()) as int) =~= messages.wheels@);
    assert(routed@.subrange((messages.lifecycle@.len() + messages.close_requested@.len() + messages.moved@.len() + messages.theme_changed@.len() + messages.cursors@.len() + messages.cursor_entered@.len() + messages.cursor_left@.len() + messages.window_focus@.len() + messages.buttons@.len() + messages.wheels@.len()) as int, (messages.lifecycle@.len() + messages.close_requested@.len() + messages.moved@.len() + messages.theme_changed@.len() + messages.cursors@.len() + messages.cursor_entered@.len() + messages.cursor_left@.len() + messages.window_focus@.len() + messages.buttons@.len() + messages.wheels@.len() + messages.pinches@.len()) as int) =~= messages.pinches@);
    assert(routed@.subrange((messages.lifecycle@.len() + messages.close_requested@.len() + messages.moved@.len() + messages.theme_changed@.len() + messages.cursors@.len() + messages.cursor_entered@.len() + messages.cursor_left@.len() + messages.window_focus@.len() + messages.buttons@.len() + messages.wheels@.len() + messages.pinches@.len()) as int, (messages.lifecycle@.len() + messages.close_requested@.len() + messages.moved@.len() + messages.theme_changed@.len() + messages.cursors@.len() + messages.cursor_entered@.len() + messages.cursor_left@.len() + messages.window_focus@.len() + messages.buttons@.len() + messages.wheels@.len() + messages.pinches@.len() + messages.files@.len()) as int) =~= messages.files@);
    assert(routed@.subrange((messages.lifecycle@.len() + messages.close_requested@.len() + messages.moved@.len() + messages.theme_changed@.len() + messages.cursors@.len() + messages.cursor_entered@.len() + messages.cursor_left@.len() + messages.window_focus@.len() + messages.buttons@.len() + messages.wheels@.len() + messages.pinches@.len() + messages.files@.len()) as int, (messages.lifecycle@.len() + messages.close_requested@.len() + messages.moved@.len() + messages.theme_changed@.len() + messages.cursors@.len() + messages.cursor_entered@.len() + messages.cursor_left@.len() + messages.window_focus@.len() + messages.buttons@.len() + messages.wheels@.len() + messages.pinches@.len() + messages.files@.len() + messages.keys@.len()) as int) =~= messages.keys@);
    assert(routed@.subrange((messages.lifecycle@.len() + messages.close_requested@.len() + messages.moved@.len() + messages.theme_changed@.len() + messages.cursors@.len() + messages.cursor_entered@.len() + messages.cursor_left@.len() + messages.window_focus@.len() + messages.buttons@.len() + messages.wheels@.len() + messages.pinches@.len() + messages.files@.len() + messages.keys@.len()) as int, (messages.lifecycle@.len() + messages.close_requested@.len() + messages.moved@.len() + messages.theme_changed@.len() + messages.cursors@.len() + messages.cursor_entered@.len() + messages.cursor_left@.len() + messages.window_focus@.len() + messages.buttons@.len() + messages.wheels@.len() + messages.pinches@.len() + messages.files@.len() + messages.keys@.len() + messages.ime@.len()) as int) =~= messages.ime@);
}

/// A key reaches a root as a press where it went down and as a release where it came
/// up, with the same keystroke; the text that may follow is the text it produced, under
/// the modifiers it was pressed with.
pub proof fn law_keys_arrive_as_they_were_pressed(
    press: KeyPress,
    prefer_character_input: bool,
    sent: (PlatformInput, PendingText),
)
    requires
        call_ensures(KeyPress::deliver, (press, prefer_character_input), sent),
    ensures
        press.state is Pressed ==> sent.0 == (PlatformInput::KeyDown {
            keystroke: press.keystroke,
            is_held: press.is_held,
            prefer_character_input,
        }),
        press.state is Released ==> sent.0 == (PlatformInput::KeyUp {
            keystroke: press.keystroke,
        }),
        sent.1.text == press.text && sent.1.state == press.state && sent.1.modifiers
            == press.keystroke.modifiers,
{
}

/// Text follows a key exactly as the key produced it, and none follows a shortcut, a
/// release or a key that was stopped.
pub proof fn law_inserted_text_is_the_key_text(
    pending: PendingText,
    result: DispatchEventResult,
    text: Option<String>,
)
    requires
        call_ensures(PendingText::to_insert, (pending, result), text),
    ensures
        pending.state is Released || !result.propagate || pending.modifiers.platform || (
        pending.modifiers.control && !pending.modifiers.alt) ==> text is None,
        pending.state is Pressed && result.propagate && !pending.modifiers.platform && (
        !pending.modifiers.control || pending.modifiers.alt) ==> text == pending.text,
{
}

} // verus!
