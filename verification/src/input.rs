//! Host input values and the events handed to the embedded application.
use crate::geometry::Point;
use crate::keys::{ButtonState, Capslock, LogicalKey, Modifiers};
use crate::scalar::Scalar;
use std::path::PathBuf;
use vstd::prelude::*;

verus! {

/// The path type of the standard library, carried through unread.
#[verifier::external_type_specification]
#[verifier::external_body]
pub struct ExPathBuf(PathBuf);

/// `PathBuf::clone` returns a duplicate of the path.
pub assume_specification[ <PathBuf as Clone>::clone ](path: &PathBuf) -> (r: PathBuf)
    ensures
        r == *path,
;

/// A mouse button as the host reports it.
#[derive(Clone, Copy, Debug, PartialEq, Eq, Structural)]
pub enum HostMouseButton {
    Left,
    Right,
    Middle,
    Back,
    Forward,
    /// A button without a name, by its number.
    Other(u16),
}

/// A direction of a navigation button.
#[derive(Clone, Copy, Debug, PartialEq, Eq, Structural)]
pub enum NavigationDirection {
    Back,
    Forward,
}

/// A mouse button as the embedded application knows it.
#[derive(Clone, Copy, Debug, PartialEq, Eq, Structural)]
pub enum MouseButton {
    Left,
    Right,
    Middle,
    Navigate(NavigationDirection),
}

/// The embedded application's name for a host button, if it has one.
pub open spec fn mouse_button_spec(button: HostMouseButton) -> Option<MouseButton> {
    match button {
        HostMouseButton::Left => Some(MouseButton::Left),
        HostMouseButton::Right => Some(MouseButton::Right),
        HostMouseButton::Middle => Some(MouseButton::Middle),
        HostMouseButton::Back => Some(MouseButton::Navigate(NavigationDirection::Back)),
        HostMouseButton::Forward => Some(MouseButton::Navigate(NavigationDirection::Forward)),
        HostMouseButton::Other(_) => None,
    }
}

/// Maps a host button to the embedded application's button.
pub fn map_mouse_button(button: HostMouseButton) -> (r: Option<MouseButton>)
    ensures
        r == mouse_button_spec(button),
{
    match button {
        HostMouseButton::Left => Some(MouseButton::Left),
        HostMouseButton::Right => Some(MouseButton::Right),
        HostMouseButton::Middle => Some(MouseButton::Middle),
        HostMouseButton::Back => Some(MouseButton::Navigate(NavigationDirection::Back)),
        HostMouseButton::Forward => Some(MouseButton::Navigate(NavigationDirection::Forward)),
        HostMouseButton::Other(_) => None,
    }
}

/// Different named buttons stay different, and exactly the unnamed ones are
/// dropped.
pub proof fn law_named_buttons_stay_apart(a: HostMouseButton, b: HostMouseButton)
    ensures
        mouse_button_spec(a) is None <==> a is Other,
        mouse_button_spec(a) is Some && mouse_button_spec(a) == mouse_button_spec(b) ==> a == b,
{
}

/// Unit of a wheel movement.
#[derive(Clone, Copy, Debug, PartialEq, Eq, Structural)]
pub enum ScrollUnit {
    Line,
    Pixel,
}

/// A wheel movement with its unit.
#[derive(Clone, Copy, Debug, PartialEq, Eq, Structural)]
pub enum ScrollDelta {
    /// A movement counted in lines.
    Lines(Point),
    /// A movement counted in pixels.
    Pixels(Point),
}

/// The wheel movement for a host unit and two axis amounts.
pub open spec fn scroll_delta_spec(unit: ScrollUnit, x: Scalar, y: Scalar) -> ScrollDelta {
    match unit {
        ScrollUnit::Line => ScrollDelta::Lines(Point { x, y }),
        ScrollUnit::Pixel => ScrollDelta::Pixels(Point { x, y }),
    }
}

/// Builds a wheel movement from a host unit and two axis amounts.
pub fn scroll_delta(unit: ScrollUnit, x: Scalar, y: Scalar) -> (r: ScrollDelta)
    ensures
        r == scroll_delta_spec(unit, x, y),
{
    match unit {
        ScrollUnit::Line => ScrollDelta::Lines(Point { x, y }),
        ScrollUnit::Pixel => ScrollDelta::Pixels(Point { x, y }),
    }
}

/// Phase of a gesture as the host reports it.
#[derive(Clone, Copy, Debug, PartialEq, Eq, Structural)]
pub enum HostTouchPhase {
    Started,
    Moved,
    Ended,
    Canceled,
}

/// Phase of a gesture as the embedded application knows it.
#[derive(Clone, Copy, Debug, PartialEq, Eq, Structural)]
pub enum TouchPhase {
    Started,
    Moved,
    Ended,
}

/// The embedded application's phase for a host phase: a canceled gesture ends.
pub open spec fn touch_phase_spec(phase: HostTouchPhase) -> TouchPhase {
    match phase {
        HostTouchPhase::Started => TouchPhase::Started,
        HostTouchPhase::Moved => TouchPhase::Moved,
        HostTouchPhase::Ended | HostTouchPhase::Canceled => TouchPhase::Ended,
    }
}

/// Maps a host gesture phase.
pub fn map_touch_phase(phase: HostTouchPhase) -> (r: TouchPhase)
    ensures
        r == touch_phase_spec(phase),
{
    match phase {
        HostTouchPhase::Started => TouchPhase::Started,
        HostTouchPhase::Moved => TouchPhase::Moved,
        HostTouchPhase::Ended | HostTouchPhase::Canceled => TouchPhase::Ended,
    }
}

/// Light or dark theme of a host window.
#[derive(Clone, Copy, Debug, PartialEq, Eq, Structural)]
pub enum WindowTheme {
    Light,
    Dark,
}

/// Light or dark appearance of an embedded window.
#[derive(Clone, Copy, Debug, PartialEq, Eq, Structural)]
pub enum WindowAppearance {
    Light,
    Dark,
}

/// The appearance for a host theme.
pub open spec fn window_theme_spec(theme: WindowTheme) -> WindowAppearance {
    match theme {
        WindowTheme::Light => WindowAppearance::Light,
        WindowTheme::Dark => WindowAppearance::Dark,
    }
}

/// Maps a host theme to an appearance.
pub fn map_window_theme(theme: WindowTheme) -> (r: WindowAppearance)
    ensures
        r == window_theme_spec(theme),
{
    match theme {
        WindowTheme::Light => WindowAppearance::Light,
        WindowTheme::Dark => WindowAppearance::Dark,
    }
}

/// Lifecycle state of the host application.
#[derive(Clone, Copy, Debug, PartialEq, Eq, Structural)]
pub enum AppLifecycle {
    /// Not started yet.
    Idle,
    /// In the foreground.
    Running,
    /// About to be suspended, with frames still left.
    WillSuspend,
    /// In the background.
    Suspended,
    /// About to come back, with frames still left.
    WillResume,
}

impl AppLifecycle {
    /// Whether the application is in the foreground or on its way to or from it.
    pub open spec fn is_active_spec(self) -> bool {
        !(self is Idle || self is Suspended)
    }

    /// Whether the application is in the foreground or on its way to or from it.
    pub fn is_active(self) -> (r: bool)
        ensures
            r == self.is_active_spec(),
    {
        match self {
            AppLifecycle::Idle | AppLifecycle::Suspended => false,
            AppLifecycle::Running | AppLifecycle::WillSuspend | AppLifecycle::WillResume => true,
        }
    }
}

/// What the embedded application answered to an input event.
#[derive(Clone, Copy, Debug, PartialEq, Eq, Structural)]
pub struct DispatchEventResult {
    /// No handler stopped the event.
    pub propagate: bool,
    /// A handler asked to suppress the default action.
    pub default_prevented: bool,
    /// The pointer was over an element of the application.
    pub pointer_hit: bool,
}

/// A key press or release in the form key bindings match on.
pub struct Keystroke {
    /// Modifiers held at the time.
    pub modifiers: Modifiers,
    /// Name of the key.
    pub key: String,
    /// Text the key produces.
    pub key_char: Option<String>,
    /// Name of the physical key.
    pub physical_key: Option<String>,
}

/// An input event delivered to an embedded window.
pub enum PlatformInput {
    MouseMove { position: Point, pressed_button: Option<MouseButton>, modifiers: Modifiers },
    MouseExited { position: Point, pressed_button: Option<MouseButton>, modifiers: Modifiers },
    MouseDown {
        button: MouseButton,
        position: Point,
        modifiers: Modifiers,
        click_count: usize,
        first_mouse: bool,
    },
    MouseUp { button: MouseButton, position: Point, modifiers: Modifiers, click_count: usize },
    ScrollWheel {
        position: Point,
        delta: ScrollDelta,
        modifiers: Modifiers,
        touch_phase: TouchPhase,
    },
    Pinch { position: Point, amount: Scalar, modifiers: Modifiers, phase: TouchPhase },
    FileEntered { position: Point, path: PathBuf },
    FileSubmit { position: Point },
    FileExited,
    ModifiersChanged { modifiers: Modifiers, capslock: Capslock },
    KeyDown { keystroke: Keystroke, is_held: bool, prefer_character_input: bool },
    KeyUp { keystroke: Keystroke },
}

/// An input event on its way to a window: what the window itself knows, its mouse
/// position and its pressed button, is filled in when the event is delivered.
pub enum RoutedInput {
    /// The pointer moved in a host window that shows the embedded window at
    /// `viewport_origin`.
    CursorMove { position: Point, viewport_origin: Point, modifiers: Modifiers },
    CursorExit { modifiers: Modifiers },
    ButtonDown { button: MouseButton, modifiers: Modifiers, click_count: usize },
    ButtonUp { button: MouseButton, modifiers: Modifiers, click_count: usize },
    Wheel { delta: ScrollDelta, modifiers: Modifiers, phase: TouchPhase },
    Pinch { amount: Scalar, modifiers: Modifiers },
    FileEntered { path: PathBuf },
    FileSubmit,
    FileExited,
    ModifiersChanged { modifiers: Modifiers, capslock: Capslock },
}

impl RoutedInput {
    /// The event as delivered to a window with a mouse position and a pressed
    /// button. `local` is the position of a cursor move relative to the window.
    pub open spec fn delivered(
        self,
        mouse: Point,
        pressed_button: Option<MouseButton>,
        local: Point,
    ) -> PlatformInput {
        match self {
            RoutedInput::CursorMove { modifiers, .. } => PlatformInput::MouseMove {
                position: local,
                pressed_button,
                modifiers,
            },
            RoutedInput::CursorExit { modifiers } => PlatformInput::MouseExited {
                position: mouse,
                pressed_button: None,
                modifiers,
            },
            RoutedInput::ButtonDown {
                button,
                modifiers,
                click_count,
            } => PlatformInput::MouseDown {
                button,
                position: mouse,
                modifiers,
                click_count,
                first_mouse: false,
            },
            RoutedInput::ButtonUp { button, modifiers, click_count } => PlatformInput::MouseUp {
                button,
                position: mouse,
                modifiers,
                click_count,
            },
            RoutedInput::Wheel { delta, modifiers, phase } => PlatformInput::ScrollWheel {
                position: mouse,
                delta,
                modifiers,
                touch_phase: phase,
            },
            RoutedInput::Pinch { amount, modifiers } => PlatformInput::Pinch {
                position: mouse,
                amount,
                modifiers,
                phase: TouchPhase::Moved,
            },
            RoutedInput::FileEntered { path } => PlatformInput::FileEntered {
                position: mouse,
                path,
            },
            RoutedInput::FileSubmit => PlatformInput::FileSubmit { position: mouse },
            RoutedInput::FileExited => PlatformInput::FileExited,
            RoutedInput::ModifiersChanged {
                modifiers,
                capslock,
            } => PlatformInput::ModifiersChanged { modifiers, capslock },
        }
    }

    /// Fills in what the receiving window knows.
    pub fn deliver(
        self,
        mouse: Point,
        pressed_button: Option<MouseButton>,
        local: Point,
    ) -> (r: PlatformInput)
        ensures
            r == self.delivered(mouse, pressed_button, local),
    {
        match self {
            RoutedInput::CursorMove { modifiers, .. } => PlatformInput::MouseMove {
                position: local,
                pressed_button,
                modifiers,
            },
            RoutedInput::CursorExit { modifiers } => PlatformInput::MouseExited {
                position: mouse,
                pressed_button: None,
                modifiers,
            },
            RoutedInput::ButtonDown {
                button,
                modifiers,
                click_count,
            } => PlatformInput::MouseDown {
                button,
                position: mouse,
                modifiers,
                click_count,
                first_mouse: false,
            },
            RoutedInput::ButtonUp { button, modifiers, click_count } => PlatformInput::MouseUp {
                button,
                position: mouse,
                modifiers,
                click_count,
            },
            RoutedInput::Wheel { delta, modifiers, phase } => PlatformInput::ScrollWheel {
                position: mouse,
                delta,
                modifiers,
                touch_phase: phase,
            },
            RoutedInput::Pinch { amount, modifiers } => PlatformInput::Pinch {
                position: mouse,
                amount,
                modifiers,
                phase: TouchPhase::Moved,
            },
            RoutedInput::FileEntered { path } => PlatformInput::FileEntered {
                position: mouse,
                path,
            },
            RoutedInput::FileSubmit => PlatformInput::FileSubmit { position: mouse },
            RoutedInput::FileExited => PlatformInput::FileExited,
            RoutedInput::ModifiersChanged {
                modifiers,
                capslock,
            } => PlatformInput::ModifiersChanged { modifiers, capslock },
        }
    }
}

/// A press or release of a key in a host window.
pub struct KeyEvent {
    /// The window that received it.
    pub window: u64,
    /// The key under the current layout.
    pub logical_key: LogicalKey,
    /// The name the host prints for the physical key.
    pub key_code: String,
    /// Whether it went down or came up.
    pub state: ButtonState,
    /// Text the press produced.
    pub text: Option<String>,
    /// Whether the press repeats a held key.
    pub repeat: bool,
}

/// A step of text composition in a host window.
pub enum ImeEvent {
    /// Text being composed, with the cursor as a byte range.
    Preedit { window: u64, value: String, cursor: Option<(usize, usize)> },
    /// Text that was accepted.
    Commit { window: u64, value: String },
    /// Composition became available.
    Enabled { window: u64 },
    /// Composition became unavailable.
    Disabled { window: u64 },
}

impl ImeEvent {
    /// The window the event belongs to.
    pub open spec fn window_spec(self) -> u64 {
        match self {
            ImeEvent::Preedit { window, .. } => window,
            ImeEvent::Commit { window, .. } => window,
            ImeEvent::Enabled { window } => window,
            ImeEvent::Disabled { window } => window,
        }
    }

    /// The window the event belongs to.
    pub fn window(&self) -> (r: u64)
        ensures
            r == self.window_spec(),
    {
        match self {
            ImeEvent::Preedit { window, .. } => *window,
            ImeEvent::Commit { window, .. } => *window,
            ImeEvent::Enabled { window } => *window,
            ImeEvent::Disabled { window } => *window,
        }
    }
}

/// A named button keeps its meaning on the way: left stays left, right stays right,
/// middle stays middle, and the two side buttons navigate the way they are named.
pub proof fn law_buttons_keep_their_meaning(button: HostMouseButton, named: MouseButton)
    requires
        mouse_button_spec(button) == Some(named),
    ensures
        named is Left <==> button is Left,
        named is Right <==> button is Right,
        named is Middle <==> button is Middle,
        named == MouseButton::Navigate(NavigationDirection::Back) <==> button is Back,
        named == MouseButton::Navigate(NavigationDirection::Forward) <==> button is Forward,
{
}

/// A wheel movement keeps its two amounts, each on its own axis, and is counted in
/// lines exactly where the host counts lines.
pub proof fn law_scroll_keeps_axes_and_unit(unit: ScrollUnit, x: Scalar, y: Scalar)
    ensures
        match scroll_delta_spec(unit, x, y) {
            ScrollDelta::Lines(amount) => unit is Line && amount.x == x && amount.y == y,
            ScrollDelta::Pixels(amount) => unit is Pixel && amount.x == x && amount.y == y,
        },
{
}

/// A gesture starts where the host says it starts, moves where it moves, and is over
/// once it ended or was canceled.
pub proof fn law_gesture_phases_keep_their_meaning(phase: HostTouchPhase)
    ensures
        touch_phase_spec(phase) is Started <==> phase is Started,
        touch_phase_spec(phase) is Moved <==> phase is Moved,
        touch_phase_spec(phase) is Ended <==> phase is Ended || phase is Canceled,
{
}

/// A dark host window looks dark, a light one light.
pub proof fn law_appearance_follows_theme(theme: WindowTheme)
    ensures
        window_theme_spec(theme) is Dark <==> theme is Dark,
        window_theme_spec(theme) is Light <==> theme is Light,
{
}

/// The application is active while it runs and on its way into and out of suspension,
/// and only then: not before it started and not while it is suspended.
pub proof fn law_active_unless_idle_or_suspended(lifecycle: AppLifecycle)
    ensures
        lifecycle is Running || lifecycle is WillSuspend || lifecycle is WillResume
            ==> lifecycle.is_active_spec(),
        lifecycle is Idle || lifecycle is Suspended ==> !lifecycle.is_active_spec(),
{
}

/// What a window fills in: a move carries the position relative to the window and the
/// pressed button, an exit no button, and every other pointer event happens where the
/// window's mouse is. What the event itself carries arrives unchanged.
pub proof fn law_delivery_fills_in_the_window(
    event: RoutedInput,
    mouse: Point,
    pressed: Option<MouseButton>,
    local: Point,
)
    ensures
        match event.delivered(mouse, pressed, local) {
            PlatformInput::MouseMove { position, pressed_button, modifiers } => event matches
                RoutedInput::CursorMove { modifiers: held, .. } && held == modifiers && position
                == local && pressed_button == pressed,
            PlatformInput::MouseExited { position, pressed_button, modifiers } => event
                == (RoutedInput::CursorExit { modifiers }) && position == mouse
                && pressed_button is None,
            PlatformInput::MouseDown {
                button,
                position,
                modifiers,
                click_count,
                first_mouse,
            } => event == (RoutedInput::ButtonDown { button, modifiers, click_count }) && position
                == mouse && !first_mouse,
            PlatformInput::MouseUp { button, position, modifiers, click_count } => event == (
            RoutedInput::ButtonUp { button, modifiers, click_count }) && position == mouse,
            PlatformInput::ScrollWheel { position, delta, modifiers, touch_phase } => event == (
            RoutedInput::Wheel { delta, modifiers, phase: touch_phase }) && position == mouse,
            PlatformInput::Pinch { position, amount, modifiers, phase } => event == (
            RoutedInput::Pinch { amount, modifiers }) && position == mouse && phase is Moved,
            PlatformInput::FileEntered { position, path } => event == (RoutedInput::FileEntered {
                path,
            }) && position == mouse,
            PlatformInput::FileSubmit { position } => event is FileSubmit && position == mouse,
            PlatformInput::FileExited => event is FileExited,
            PlatformInput::ModifiersChanged { modifiers, capslock } => event == (
            RoutedInput::ModifiersChanged { modifiers, capslock }),
            PlatformInput::KeyDown { .. } => false,
            PlatformInput::KeyUp { .. } => false,
        },
{
}

/// A step of composition belongs to the window it names.
pub proof fn law_composition_belongs_to_its_window(event: ImeEvent)
    ensures
        event matches ImeEvent::Preedit { window, .. } ==> event.window_spec() == window,
        event matches ImeEvent::Commit { window, .. } ==> event.window_spec() == window,
        event matches ImeEvent::Enabled { window } ==> event.window_spec() == window,
        event matches ImeEvent::Disabled { window } ==> event.window_spec() == window,
{
}

} // verus!
