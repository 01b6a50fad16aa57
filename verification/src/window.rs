//! The state behind one embedded window.
use crate::cursor::{CursorStyle, WindowBackgroundAppearance};
use crate::geometry::{Bounds, Point, Size};
use crate::host::HostTypes;
use crate::input::{MouseButton, PlatformInput, WindowAppearance};
use crate::keys::{Capslock, Modifiers};
use crate::scalar::{pixel_units, Scalar, SCALE_TOLERANCE_BITS};
use raw_window_handle::{RawDisplayHandle, RawWindowHandle};
use std::ops::Range;
use std::rc::Rc;
use std::sync::Arc;
use vstd::arithmetic::power2::{lemma_pow2_pos, pow2};
use vstd::prelude::*;

verus! {

/// A native window handle of the `raw-window-handle` crate, carried through
/// unread.
#[verifier::external_type_specification]
#[verifier::external_body]
pub struct ExRawWindowHandle(RawWindowHandle);

/// A native display handle of the `raw-window-handle` crate, carried through
/// unread.
#[verifier::external_type_specification]
#[verifier::external_body]
pub struct ExRawDisplayHandle(RawDisplayHandle);

/// The bit pattern of the scale factor one.
pub const UNIT_SCALE_BITS: u32 = 0x3f80_0000;

/// Requests of an embedded window that its host window has to carry out.
pub struct BevyWindowOutput {
    /// A new title.
    pub title: Option<String>,
    /// A new size in logical pixels.
    pub logical_size: Option<Size>,
    /// Whether to cover the screen.
    pub fullscreen: Option<bool>,
    /// Minimize the window.
    pub minimize: bool,
    /// Maximize the window.
    pub maximize: bool,
    /// Focus the window.
    pub activate: bool,
    /// Where composed text appears.
    pub ime_position: Option<Point>,
    /// Whether to show the cursor.
    pub cursor_visible: Option<bool>,
    /// What shows behind the window's own drawing.
    pub background_appearance: Option<WindowBackgroundAppearance>,
}

impl BevyWindowOutput {
    /// No request.
    pub open spec fn none_spec() -> BevyWindowOutput {
        BevyWindowOutput {
            title: None,
            logical_size: None,
            fullscreen: None,
            minimize: false,
            maximize: false,
            activate: false,
            ime_position: None,
            cursor_visible: None,
            background_appearance: None,
        }
    }
}

impl Default for BevyWindowOutput {
    /// No request.
    fn default() -> (r: Self)
        ensures
            r == BevyWindowOutput::none_spec(),
    {
        BevyWindowOutput {
            title: None,
            logical_size: None,
            fullscreen: None,
            minimize: false,
            maximize: false,
            activate: false,
            ime_position: None,
            cursor_visible: None,
            background_appearance: None,
        }
    }
}

/// The state of one embedded window.
///
/// Callbacks sit in slots. A callback leaves its slot while it runs, so that a
/// window that is re-entered from within finds the slot empty.
pub struct BevyPlatformWindow<K: HostTypes> {
    pub handle: K::Handle,
    pub bounds: Bounds,
    pub display: Rc<K::Display>,
    pub atlas: Arc<K::Atlas>,
    pub latest_snapshot: Option<K::Snapshot>,
    pub scene_generation: u64,
    pub request_frame: Option<K::FrameCallback>,
    pub input: Option<K::InputCallback>,
    pub active: Option<K::FlagCallback>,
    pub hovered: Option<K::FlagCallback>,
    pub resized: Option<K::ResizeCallback>,
    pub moved: Option<K::UnitCallback>,
    pub should_close: Option<K::ShouldCloseCallback>,
    pub close: Option<K::CloseCallback>,
    pub hit_test: Option<K::HitTestCallback>,
    pub appearance_changed: Option<K::UnitCallback>,
    pub input_handler: Option<K::InputHandler>,
    pub title: String,
    pub fullscreen: bool,
    pub scale_factor: Scalar,
    pub is_active: bool,
    pub is_hovered: bool,
    pub mouse_position: Point,
    pub pressed_button: Option<MouseButton>,
    pub modifiers: Modifiers,
    pub capslock: Capslock,
    pub output: BevyWindowOutput,
    pub cursor_style: CursorStyle,
    pub appearance: WindowAppearance,
    pub cursor_visible: bool,
    pub background_appearance: WindowBackgroundAppearance,
    pub raw_window_handle: Option<RawWindowHandle>,
    pub raw_display_handle: Option<RawDisplayHandle>,
}

/// Callbacks to run after the host's state of a window changed: first the size,
/// then the activity, then the position.
pub struct HostStateChange<K: HostTypes> {
    /// To run with the new size and scale.
    pub resized: Option<K::ResizeCallback>,
    /// To run with the new activity.
    pub active_changed: Option<K::FlagCallback>,
    /// To run when the origin moved.
    pub moved: Option<K::UnitCallback>,
}

/// An edit of the text field of a window.
#[derive(Debug, PartialEq, Eq)]
pub enum TextEdit {
    /// Drop the composition.
    Unmark,
    /// Replace the composition and mark it, with a selection inside.
    ReplaceAndMark { text: String, selected: Option<Range<usize>> },
    /// Replace the composition by final text, then drop the mark.
    Commit { text: String },
}

/// No native handle was supplied for the window yet.
#[derive(Clone, Copy, Debug, PartialEq, Eq, Structural)]
pub struct HandleUnavailable;

/// Whether a scale changed by more than rounding.
pub open spec fn scale_changed(delta: Scalar) -> bool {
    (Scalar { bits: SCALE_TOLERANCE_BITS }).le_spec(delta) && !delta.same_value_spec(
        Scalar { bits: SCALE_TOLERANCE_BITS },
    )
}

/// What a text composition step does to a text field: empty text drops the
/// composition.
pub fn preedit_edit(value: &String, selected: Option<Range<usize>>) -> (r: TextEdit)
    ensures
        r is Unmark <==> value@.len() == 0,
        value@.len() > 0 ==> (r matches TextEdit::ReplaceAndMark { text, selected: range }
            && text@ == value@ && range == selected),
{
    if value.as_str().unicode_len() == 0 {
        TextEdit::Unmark
    } else {
        TextEdit::ReplaceAndMark { text: value.clone(), selected }
    }
}

/// What accepting composed text does to a text field.
pub fn commit_edit(value: &String) -> (r: TextEdit)
    ensures
        r matches TextEdit::Commit { text } && text@ == value@,
{
    TextEdit::Commit { text: value.clone() }
}

/// Empties a slot where its callback is due.
fn take_if<T>(slot: &mut Option<T>, due: bool) -> (r: Option<T>)
    ensures
        due ==> r == *old(slot) && *final(slot) == None::<T>,
        !due ==> r is None && *final(slot) == *old(slot),
{
    if due {
        slot.take()
    } else {
        None
    }
}

impl<K: HostTypes> BevyPlatformWindow<K> {
    /// A window nobody has touched yet.
    pub open spec fn is_fresh(
        self,
        handle: K::Handle,
        bounds: Bounds,
        display: Rc<K::Display>,
        atlas: Arc<K::Atlas>,
    ) -> bool {
        &&& self.title@ == Seq::<char>::empty()
        &&& self == BevyPlatformWindow::<K> {
            handle,
            bounds,
            display,
            atlas,
            latest_snapshot: None,
            scene_generation: 0,
            request_frame: None,
            input: None,
            active: None,
            hovered: None,
            resized: None,
            moved: None,
            should_close: None,
            close: None,
            hit_test: None,
            appearance_changed: None,
            input_handler: None,
            title: self.title,
            fullscreen: false,
            scale_factor: Scalar { bits: UNIT_SCALE_BITS },
            is_active: true,
            is_hovered: false,
            mouse_position: Point::origin_spec(),
            pressed_button: None,
            modifiers: Modifiers::none_spec(),
            capslock: Capslock::off_spec(),
            output: BevyWindowOutput::none_spec(),
            cursor_style: CursorStyle::Arrow,
            appearance: WindowAppearance::Dark,
            cursor_visible: true,
            background_appearance: WindowBackgroundAppearance::Transparent,
            raw_window_handle: None,
            raw_display_handle: None,
        }
    }

    /// A window nobody has touched yet, whose scenes go on from a generation.
    pub open spec fn is_opened(
        self,
        handle: K::Handle,
        bounds: Bounds,
        display: Rc<K::Display>,
        atlas: Arc<K::Atlas>,
        generation: u64,
    ) -> bool {
        &&& (BevyPlatformWindow::<K> { scene_generation: 0, ..self }).is_fresh(
            handle,
            bounds,
            display,
            atlas,
        )
        &&& self.scene_generation == generation
    }

    /// Creates a window without callbacks, active, dark and with a visible arrow
    /// cursor.
    pub fn new(
        handle: K::Handle,
        bounds: Bounds,
        display: Rc<K::Display>,
        atlas: Arc<K::Atlas>,
    ) -> (r: Self)
        ensures
            r.is_fresh(handle, bounds, display, atlas),
    {
        proof {
            reveal_strlit("");
            assert(""@ =~= Seq::<char>::empty());
        }
        BevyPlatformWindow {
            handle,
            bounds,
            display,
            atlas,
            latest_snapshot: None,
            scene_generation: 0,
            request_frame: None,
            input: None,
            active: None,
            hovered: None,
            resized: None,
            moved: None,
            should_close: None,
            close: None,
            hit_test: None,
            appearance_changed: None,
            input_handler: None,
            title: "".to_owned(),
            fullscreen: false,
            scale_factor: Scalar { bits: UNIT_SCALE_BITS },
            is_active: true,
            is_hovered: false,
            mouse_position: Point::origin(),
            pressed_button: None,
            modifiers: Modifiers::default(),
            capslock: Capslock::default(),
            output: BevyWindowOutput::default(),
            cursor_style: CursorStyle::Arrow,
            appearance: WindowAppearance::Dark,
            cursor_visible: true,
            background_appearance: WindowBackgroundAppearance::Transparent,
            raw_window_handle: None,
            raw_display_handle: None,
        }
    }

    /// The window's state once an input event has been noted: moves and buttons
    /// set the mouse position, buttons set or clear the pressed button, and a
    /// move shows a hidden cursor again.
    pub open spec fn after_input(self, input: PlatformInput) -> BevyPlatformWindow<K> {
        match input {
            PlatformInput::MouseMove { position, .. } => if self.cursor_visible {
                BevyPlatformWindow::<K> { mouse_position: position, ..self }
            } else {
                BevyPlatformWindow::<K> {
                    mouse_position: position,
                    cursor_visible: true,
                    output: BevyWindowOutput { cursor_visible: Some(true), ..self.output },
                    ..self
                }
            },
            PlatformInput::MouseDown { button, position, .. } => BevyPlatformWindow::<K> {
                mouse_position: position,
                pressed_button: Some(button),
                ..self
            },
            PlatformInput::MouseUp { position, .. } => BevyPlatformWindow::<K> {
                mouse_position: position,
                pressed_button: None,
                ..self
            },
            _ => self,
        }
    }

    /// Notes a mouse move.
    fn note_move(&mut self, position: Point)
        ensures
            *final(self) == (BevyPlatformWindow::<K> {
                mouse_position: position,
                cursor_visible: true,
                output: if old(self).cursor_visible {
                    old(self).output
                } else {
                    (BevyWindowOutput { cursor_visible: Some(true), ..old(self).output })
                },
                ..*old(self)
            }),
    {
        self.mouse_position = position;
        if !self.cursor_visible {
            self.cursor_visible = true;
            self.output.cursor_visible = Some(true);
        }
    }

    /// Notes a button that went down or came up.
    fn note_button(&mut self, position: Point, pressed_button: Option<MouseButton>)
        ensures
            *final(self) == (BevyPlatformWindow::<K> {
                mouse_position: position,
                pressed_button,
                ..*old(self)
            }),
    {
        self.mouse_position = position;
        self.pressed_button = pressed_button;
    }

    /// Notes an input event.
    fn note_input(&mut self, input: &PlatformInput)
        ensures
            *final(self) == old(self).after_input(*input),
    {
        match input {
            PlatformInput::MouseMove { position, .. } => self.note_move(*position),
            PlatformInput::MouseDown { button, position, .. } => self.note_button(
                *position,
                Some(*button),
            ),
            PlatformInput::MouseUp { position, .. } => self.note_button(*position, None),
            _ => {},
        }
    }

    /// Notes an input event and takes out the callback that has to receive it.
    pub fn begin_input(&mut self, input: &PlatformInput) -> (r: Option<K::InputCallback>)
        ensures
            r == old(self).input,
            *final(self) == (BevyPlatformWindow::<K> {
                input: None,
                ..old(self).after_input(*input)
            }),
    {
        self.note_input(input);
        self.input.take()
    }

    /// Puts the input callback back.
    pub fn finish_input(&mut self, callback: K::InputCallback)
        ensures
            *final(self) == (BevyPlatformWindow::<K> { input: Some(callback), ..*old(self) }),
    {
        self.input = Some(callback);
    }

    /// Takes the frame callback out of its slot.
    pub fn begin_request_frame(&mut self) -> (r: Option<K::FrameCallback>)
        ensures
            r == old(self).request_frame,
            *final(self) == (BevyPlatformWindow::<K> { request_frame: None, ..*old(self) }),
    {
        self.request_frame.take()
    }

    /// Puts the frame callback back.
    pub fn finish_request_frame(&mut self, callback: K::FrameCallback)
        ensures
            *final(self) == (BevyPlatformWindow::<K> {
                request_frame: Some(callback),
                ..*old(self)
            }),
    {
        self.request_frame = Some(callback);
    }

    /// Whether a new size or scale has to be announced.
    pub open spec fn resize_due(self, bounds: Bounds, scale_delta: Scalar) -> bool {
        !self.bounds.size.same_value_spec(bounds.size) || scale_changed(scale_delta)
    }

    /// Whether a new origin has to be announced.
    pub open spec fn move_due(self, bounds: Bounds) -> bool {
        !self.bounds.origin.same_value_spec(bounds.origin)
    }

    /// The callbacks to run when the host reports new bounds, scale and activity.
    pub open spec fn host_change(
        self,
        bounds: Bounds,
        scale_delta: Scalar,
        is_active: bool,
    ) -> HostStateChange<K> {
        HostStateChange {
            resized: if self.resize_due(bounds, scale_delta) {
                self.resized
            } else {
                None
            },
            active_changed: if self.is_active != is_active {
                self.active
            } else {
                None
            },
            moved: if self.move_due(bounds) {
                self.moved
            } else {
                None
            },
        }
    }

    /// The window while the callbacks of a host change run.
    pub open spec fn after_host_change(
        self,
        bounds: Bounds,
        scale_factor: Scalar,
        scale_delta: Scalar,
        is_active: bool,
    ) -> BevyPlatformWindow<K> {
        BevyPlatformWindow::<K> {
            bounds,
            scale_factor,
            is_active,
            resized: if self.resize_due(bounds, scale_delta) {
                None
            } else {
                self.resized
            },
            moved: if self.move_due(bounds) {
                None
            } else {
                self.moved
            },
            active: if self.is_active != is_active {
                None
            } else {
                self.active
            },
            ..self
        }
    }

    /// The window with the callbacks of a host change back in their slots.
    pub open spec fn with_callbacks(self, change: HostStateChange<K>) -> BevyPlatformWindow<K> {
        BevyPlatformWindow::<K> {
            resized: if change.resized is Some {
                change.resized
            } else {
                self.resized
            },
            active: if change.active_changed is Some {
                change.active_changed
            } else {
                self.active
            },
            moved: if change.moved is Some {
                change.moved
            } else {
                self.moved
            },
            ..self
        }
    }

    /// Takes over the host's bounds, scale and activity, and takes out the
    /// callbacks of whatever changed.
    ///
    /// `scale_delta` is the distance between the old and the new scale.
    pub fn begin_sync_host_state(
        &mut self,
        bounds: Bounds,
        scale_factor: Scalar,
        scale_delta: Scalar,
        is_active: bool,
    ) -> (r: HostStateChange<K>)
        ensures
            r == old(self).host_change(bounds, scale_delta, is_active),
            *final(self) == old(self).after_host_change(
                bounds,
                scale_factor,
                scale_delta,
                is_active,
            ),
    {
        let tolerance: Scalar = Scalar { bits: SCALE_TOLERANCE_BITS };
        let rescaled: bool = tolerance.le(scale_delta) && !scale_delta.same_value(tolerance);
        let resize_due: bool = !self.bounds.size.same_value(bounds.size) || rescaled;
        let move_due: bool = !self.bounds.origin.same_value(bounds.origin);
        let active_due: bool = self.is_active != is_active;
        let resized = take_if(&mut self.resized, resize_due);
        let moved = take_if(&mut self.moved, move_due);
        let active_changed = take_if(&mut self.active, active_due);
        self.bounds = bounds;
        self.scale_factor = scale_factor;
        self.is_active = is_active;
        HostStateChange { resized, active_changed, moved }
    }

    /// Puts the callbacks of a host change back into their slots.
    pub fn finish_sync_host_state(&mut self, change: HostStateChange<K>)
        ensures
            *final(self) == old(self).with_callbacks(change),
    {
        if let Some(callback) = change.resized {
            self.resized = Some(callback);
        }
        if let Some(callback) = change.active_changed {
            self.active = Some(callback);
        }
        if let Some(callback) = change.moved {
            self.moved = Some(callback);
        }
    }

    /// Takes over the host's appearance and takes out the callback to run, unless
    /// the window already has that appearance.
    pub fn begin_host_appearance(&mut self, appearance: WindowAppearance) -> (r: Option<
        K::UnitCallback,
    >)
        ensures
            old(self).appearance == appearance ==> r is None && *final(self) == *old(self),
            old(self).appearance != appearance ==> r == old(self).appearance_changed && *final(self)
                == (BevyPlatformWindow::<K> {
                appearance,
                appearance_changed: None,
                ..*old(self)
            }),
    {
        if self.appearance == appearance {
            return None;
        }
        self.appearance = appearance;
        self.appearance_changed.take()
    }

    /// Puts the appearance callback back.
    pub fn finish_host_appearance(&mut self, callback: K::UnitCallback)
        ensures
            *final(self) == (BevyPlatformWindow::<K> {
                appearance_changed: Some(callback),
                ..*old(self)
            }),
    {
        self.appearance_changed = Some(callback);
    }

    /// Takes the move callback out of its slot.
    pub fn begin_host_moved(&mut self) -> (r: Option<K::UnitCallback>)
        ensures
            r == old(self).moved,
            *final(self) == (BevyPlatformWindow::<K> { moved: None, ..*old(self) }),
    {
        self.moved.take()
    }

    /// Puts the move callback back.
    pub fn finish_host_moved(&mut self, callback: K::UnitCallback)
        ensures
            *final(self) == (BevyPlatformWindow::<K> { moved: Some(callback), ..*old(self) }),
    {
        self.moved = Some(callback);
    }

    /// Takes the close question out of its slot. Without one the window may
    /// close.
    pub fn begin_should_close(&mut self) -> (r: Option<K::ShouldCloseCallback>)
        ensures
            r == old(self).should_close,
            *final(self) == (BevyPlatformWindow::<K> { should_close: None, ..*old(self) }),
    {
        self.should_close.take()
    }

    /// Puts the close question back.
    pub fn finish_should_close(&mut self, callback: K::ShouldCloseCallback)
        ensures
            *final(self) == (BevyPlatformWindow::<K> {
                should_close: Some(callback),
                ..*old(self)
            }),
    {
        self.should_close = Some(callback);
    }

    /// Notes whether the pointer is over the window and takes out the callback to
    /// run, unless nothing changed.
    pub fn begin_set_hovered(&mut self, hovered: bool) -> (r: Option<K::FlagCallback>)
        ensures
            old(self).is_hovered == hovered ==> r is None && *final(self) == *old(self),
            old(self).is_hovered != hovered ==> r == old(self).hovered && *final(self) == (
            BevyPlatformWindow::<K> { is_hovered: hovered, hovered: None, ..*old(self) }),
    {
        if self.is_hovered == hovered {
            return None;
        }
        self.is_hovered = hovered;
        self.hovered.take()
    }

    /// Puts the hover callback back.
    pub fn finish_set_hovered(&mut self, callback: K::FlagCallback)
        ensures
            *final(self) == (BevyPlatformWindow::<K> { hovered: Some(callback), ..*old(self) }),
    {
        self.hovered = Some(callback);
    }

    /// Takes the text field out of its slot.
    pub fn take_input_handler(&mut self) -> (r: Option<K::InputHandler>)
        ensures
            r == old(self).input_handler,
            *final(self) == (BevyPlatformWindow::<K> { input_handler: None, ..*old(self) }),
    {
        self.input_handler.take()
    }

    /// Installs a text field.
    pub fn set_input_handler(&mut self, handler: K::InputHandler)
        ensures
            *final(self) == (BevyPlatformWindow::<K> {
                input_handler: Some(handler),
                ..*old(self)
            }),
    {
        self.input_handler = Some(handler);
    }

    /// The window once a scene was finished: it replaces one that was not taken
    /// yet, under the next generation.
    pub open spec fn drawn(self, snapshot: K::Snapshot) -> BevyPlatformWindow<K> {
        BevyPlatformWindow::<K> {
            scene_generation: if self.scene_generation == u64::MAX {
                0
            } else {
                (self.scene_generation + 1) as u64
            },
            latest_snapshot: Some(snapshot),
            ..self
        }
    }

    /// Stores a finished scene under the next generation.
    pub fn draw(&mut self, snapshot: K::Snapshot)
        ensures
            *final(self) == old(self).drawn(snapshot),
    {
        self.scene_generation = self.scene_generation.wrapping_add(1);
        self.latest_snapshot = Some(snapshot);
    }

    /// Takes the latest scene with its generation, if there is one that was not
    /// taken yet.
    pub fn take_latest_snapshot(&mut self) -> (r: Option<(u64, K::Snapshot)>)
        ensures
            r == (match old(self).latest_snapshot {
                Some(snapshot) => Some((old(self).scene_generation, snapshot)),
                None => None,
            }),
            *final(self) == (BevyPlatformWindow::<K> { latest_snapshot: None, ..*old(self) }),
    {
        let generation: u64 = self.scene_generation;
        match self.latest_snapshot.take() {
            Some(snapshot) => Some((generation, snapshot)),
            None => None,
        }
    }

    /// Takes the requests collected for the host window.
    pub fn take_output(&mut self) -> (r: BevyWindowOutput)
        ensures
            r == old(self).output,
            *final(self) == (BevyPlatformWindow::<K> {
                output: BevyWindowOutput::none_spec(),
                ..*old(self)
            }),
    {
        let mut output = BevyWindowOutput::default();
        std::mem::swap(&mut output, &mut self.output);
        output
    }

    /// Sets the cursor shape shown over the window.
    pub fn set_cursor_style(&mut self, style: CursorStyle)
        ensures
            *final(self) == (BevyPlatformWindow::<K> { cursor_style: style, ..*old(self) }),
    {
        self.cursor_style = style;
    }

    /// Shows or hides the cursor over the window.
    pub fn set_cursor_visible(&mut self, visible: bool)
        ensures
            *final(self) == (BevyPlatformWindow::<K> {
                cursor_visible: visible,
                output: BevyWindowOutput { cursor_visible: Some(visible), ..old(self).output },
                ..*old(self)
            }),
    {
        self.cursor_visible = visible;
        self.output.cursor_visible = Some(visible);
    }

    /// Sets the modifiers and caps-lock state reported by the window.
    pub fn set_keyboard_state(&mut self, modifiers: Modifiers, capslock: Capslock)
        ensures
            *final(self) == (BevyPlatformWindow::<K> { modifiers, capslock, ..*old(self) }),
    {
        self.modifiers = modifiers;
        self.capslock = capslock;
    }

    /// Moves the window to another display.
    pub fn set_host_display(&mut self, display: Rc<K::Display>)
        ensures
            *final(self) == (BevyPlatformWindow::<K> { display, ..*old(self) }),
    {
        self.display = display;
    }

    /// Supplies the native handles of the host window.
    pub fn set_raw_handles(&mut self, window: RawWindowHandle, display: RawDisplayHandle)
        ensures
            *final(self) == (BevyPlatformWindow::<K> {
                raw_window_handle: Some(window),
                raw_display_handle: Some(display),
                ..*old(self)
            }),
    {
        self.raw_window_handle = Some(window);
        self.raw_display_handle = Some(display);
    }

    /// The native window handle, once the host supplied one.
    pub fn window_handle(&self) -> (r: Result<RawWindowHandle, HandleUnavailable>)
        ensures
            r == (match self.raw_window_handle {
                Some(raw) => Ok::<RawWindowHandle, HandleUnavailable>(raw),
                None => Err(HandleUnavailable),
            }),
    {
        match self.raw_window_handle {
            Some(raw) => Ok(raw),
            None => Err(HandleUnavailable),
        }
    }

    /// The native display handle, once the host supplied one.
    pub fn display_handle(&self) -> (r: Result<RawDisplayHandle, HandleUnavailable>)
        ensures
            r == (match self.raw_display_handle {
                Some(raw) => Ok::<RawDisplayHandle, HandleUnavailable>(raw),
                None => Err(HandleUnavailable),
            }),
    {
        match self.raw_display_handle {
            Some(raw) => Ok(raw),
            None => Err(HandleUnavailable),
        }
    }

    /// Resizes the window and asks the host to follow.
    pub fn resize(&mut self, size: Size)
        ensures
            *final(self) == (BevyPlatformWindow::<K> {
                bounds: Bounds { size, ..old(self).bounds },
                output: BevyWindowOutput { logical_size: Some(size), ..old(self).output },
                ..*old(self)
            }),
    {
        self.bounds.size = size;
        self.output.logical_size = Some(size);
    }

    /// Asks the host to focus the window.
    pub fn activate(&mut self)
        ensures
            *final(self) == (BevyPlatformWindow::<K> {
                output: BevyWindowOutput { activate: true, ..old(self).output },
                ..*old(self)
            }),
    {
        self.output.activate = true;
    }

    /// Sets the title and asks the host to follow.
    pub fn set_title(&mut self, title: &str)
        ensures
            final(self).title@ == title@,
            final(self).output.title matches Some(requested) && requested@ == title@,
            *final(self) == (BevyPlatformWindow::<K> {
                title: final(self).title,
                output: BevyWindowOutput { title: final(self).output.title, ..old(self).output },
                ..*old(self)
            }),
    {
        self.title = title.to_owned();
        self.output.title = Some(title.to_owned());
    }

    /// Sets what shows behind the window's own drawing and asks the host to
    /// follow.
    pub fn set_background_appearance(&mut self, appearance: WindowBackgroundAppearance)
        ensures
            *final(self) == (BevyPlatformWindow::<K> {
                background_appearance: appearance,
                output: BevyWindowOutput {
                    background_appearance: Some(appearance),
                    ..old(self).output
                },
                ..*old(self)
            }),
    {
        self.background_appearance = appearance;
        self.output.background_appearance = Some(appearance);
    }

    /// Asks the host to minimize the window.
    pub fn minimize(&mut self)
        ensures
            *final(self) == (BevyPlatformWindow::<K> {
                output: BevyWindowOutput { minimize: true, ..old(self).output },
                ..*old(self)
            }),
    {
        self.output.minimize = true;
    }

    /// Asks the host to maximize the window.
    pub fn zoom(&mut self)
        ensures
            *final(self) == (BevyPlatformWindow::<K> {
                output: BevyWindowOutput { maximize: true, ..old(self).output },
                ..*old(self)
            }),
    {
        self.output.maximize = true;
    }

    /// Enters or leaves full screen and asks the host to follow.
    pub fn toggle_fullscreen(&mut self)
        ensures
            *final(self) == (BevyPlatformWindow::<K> {
                fullscreen: !old(self).fullscreen,
                output: BevyWindowOutput {
                    fullscreen: Some(!old(self).fullscreen),
                    ..old(self).output
                },
                ..*old(self)
            }),
    {
        self.fullscreen = !self.fullscreen;
        self.output.fullscreen = Some(self.fullscreen);
    }

    /// Asks the host to show composed text at the origin of an element.
    pub fn update_ime_position(&mut self, bounds: Bounds)
        ensures
            *final(self) == (BevyPlatformWindow::<K> {
                output: BevyWindowOutput {
                    ime_position: Some(bounds.origin),
                    ..old(self).output
                },
                ..*old(self)
            }),
    {
        self.output.ime_position = Some(bounds.origin);
    }

    /// Installs the callback that asks for a frame.
    pub fn on_request_frame(&mut self, callback: K::FrameCallback)
        ensures
            *final(self) == (BevyPlatformWindow::<K> { request_frame: Some(callback), ..*old(self) }),
    {
        self.request_frame = Some(callback);
    }

    /// Installs the callback that receives input.
    pub fn on_input(&mut self, callback: K::InputCallback)
        ensures
            *final(self) == (BevyPlatformWindow::<K> { input: Some(callback), ..*old(self) }),
    {
        self.input = Some(callback);
    }

    /// Installs the callback that hears of activity.
    pub fn on_active_status_change(&mut self, callback: K::FlagCallback)
        ensures
            *final(self) == (BevyPlatformWindow::<K> { active: Some(callback), ..*old(self) }),
    {
        self.active = Some(callback);
    }

    /// Installs the callback that hears of hovering.
    pub fn on_hover_status_change(&mut self, callback: K::FlagCallback)
        ensures
            *final(self) == (BevyPlatformWindow::<K> { hovered: Some(callback), ..*old(self) }),
    {
        self.hovered = Some(callback);
    }

    /// Installs the callback that hears of a new size.
    pub fn on_resize(&mut self, callback: K::ResizeCallback)
        ensures
            *final(self) == (BevyPlatformWindow::<K> { resized: Some(callback), ..*old(self) }),
    {
        self.resized = Some(callback);
    }

    /// Installs the callback that hears of a move.
    pub fn on_moved(&mut self, callback: K::UnitCallback)
        ensures
            *final(self) == (BevyPlatformWindow::<K> { moved: Some(callback), ..*old(self) }),
    {
        self.moved = Some(callback);
    }

    /// Installs the callback that decides whether the window may close.
    pub fn on_should_close(&mut self, callback: K::ShouldCloseCallback)
        ensures
            *final(self) == (BevyPlatformWindow::<K> { should_close: Some(callback), ..*old(self) }),
    {
        self.should_close = Some(callback);
    }

    /// Installs the callback that finds the window control under the pointer.
    pub fn on_hit_test_window_control(&mut self, callback: K::HitTestCallback)
        ensures
            *final(self) == (BevyPlatformWindow::<K> { hit_test: Some(callback), ..*old(self) }),
    {
        self.hit_test = Some(callback);
    }

    /// Installs the callback that hears that the window closed.
    pub fn on_close(&mut self, callback: K::CloseCallback)
        ensures
            *final(self) == (BevyPlatformWindow::<K> { close: Some(callback), ..*old(self) }),
    {
        self.close = Some(callback);
    }

    /// Installs the callback that hears of a new appearance.
    pub fn on_appearance_changed(&mut self, callback: K::UnitCallback)
        ensures
            *final(self) == (BevyPlatformWindow::<K> { appearance_changed: Some(callback), ..*old(self) }),
    {
        self.appearance_changed = Some(callback);
    }
}

/// Running the callbacks of a host change loses none: once they are back, each slot
/// holds what it held before, and the window has the host's bounds, scale and
/// activity.
pub proof fn law_host_change_keeps_callbacks<K: HostTypes>(
    window: BevyPlatformWindow<K>,
    bounds: Bounds,
    scale_factor: Scalar,
    scale_delta: Scalar,
    is_active: bool,
)
    ensures
        window.after_host_change(bounds, scale_factor, scale_delta, is_active).with_callbacks(
            window.host_change(bounds, scale_delta, is_active),
        ) == (BevyPlatformWindow::<K> { bounds, scale_factor, is_active, ..window }),
{
}

/// A host that reports the state a window already has announces nothing, as long
/// as the window's bounds are numbers.
pub proof fn law_unchanged_host_state_is_silent<K: HostTypes>(window: BevyPlatformWindow<K>)
    requires
        !window.bounds.size.width.is_nan_spec(),
        !window.bounds.size.height.is_nan_spec(),
        !window.bounds.origin.x.is_nan_spec(),
        !window.bounds.origin.y.is_nan_spec(),
    ensures
        !window.resize_due(window.bounds, Scalar { bits: 0 }),
        !window.move_due(window.bounds),
{
    crate::scalar::law_scale_tolerance();
}

/// A pressed button is remembered until it is released: after a press the window
/// reports the button, after a release none, and other events leave it alone.
pub proof fn law_pressed_button_follows_presses<K: HostTypes>(
    window: BevyPlatformWindow<K>,
    input: PlatformInput,
)
    ensures
        input matches PlatformInput::MouseDown { button, .. } ==> window.after_input(
            input,
        ).pressed_button == Some(button),
        input is MouseUp ==> window.after_input(input).pressed_button is None,
        !(input is MouseDown) && !(input is MouseUp) ==> window.after_input(input).pressed_button
            == window.pressed_button,
{
}

/// A hidden cursor comes back with the next mouse move and with no other event.
pub proof fn law_cursor_returns_on_move<K: HostTypes>(
    window: BevyPlatformWindow<K>,
    input: PlatformInput,
)
    requires
        !window.cursor_visible,
    ensures
        window.after_input(input).cursor_visible <==> input is MouseMove,
        input is MouseMove ==> window.after_input(input).output.cursor_visible == Some(true),
{
}

/// The generation of a window's scenes grows with each scene until the count is
/// used up.
pub proof fn law_scene_generation_grows<K: HostTypes>(
    before: BevyPlatformWindow<K>,
    snapshot: K::Snapshot,
)
    requires
        before.scene_generation < u64::MAX,
    ensures
        before.drawn(snapshot).scene_generation == before.scene_generation + 1,
        before.drawn(snapshot).latest_snapshot == Some(snapshot),
{
}

/// A move and a button put the mouse where they happen; other events leave it.
pub proof fn law_mouse_follows_moves_and_buttons<K: HostTypes>(
    window: BevyPlatformWindow<K>,
    input: PlatformInput,
)
    ensures
        input matches PlatformInput::MouseMove { position, .. } ==> window.after_input(
            input,
        ).mouse_position == position,
        input matches PlatformInput::MouseDown { position, .. } ==> window.after_input(
            input,
        ).mouse_position == position,
        input matches PlatformInput::MouseUp { position, .. } ==> window.after_input(
            input,
        ).mouse_position == position,
        !(input is MouseMove) && !(input is MouseDown) && !(input is MouseUp)
            ==> window.after_input(input) == window,
        window.cursor_visible ==> window.after_input(input).cursor_visible && window.after_input(
            input,
        ).output == window.output,
        window.after_input(input) == (BevyPlatformWindow::<K> {
            mouse_position: window.after_input(input).mouse_position,
            pressed_button: window.after_input(input).pressed_button,
            cursor_visible: window.after_input(input).cursor_visible,
            output: window.after_input(input).output,
            ..window
        }),
        window.after_input(input).output == (BevyWindowOutput {
            cursor_visible: window.after_input(input).output.cursor_visible,
            ..window.output
        }),
{
}

/// A new size is announced exactly where width or height denote another number or the
/// scale changed by more than `2^-23`, a move exactly where a coordinate of the origin
/// denotes another number, and a change of activity exactly where there is one. What is
/// announced is what the slot holds.
pub proof fn law_host_changes_are_announced<K: HostTypes>(
    window: BevyPlatformWindow<K>,
    bounds: Bounds,
    scale_delta: Scalar,
    is_active: bool,
)
    requires
        !window.bounds.size.width.is_nan_spec() && !window.bounds.size.height.is_nan_spec(),
        !window.bounds.origin.x.is_nan_spec() && !window.bounds.origin.y.is_nan_spec(),
        !bounds.size.width.is_nan_spec() && !bounds.size.height.is_nan_spec(),
        !bounds.origin.x.is_nan_spec() && !bounds.origin.y.is_nan_spec(),
        !scale_delta.is_nan_spec(),
    ensures
        ({
            let change = window.host_change(bounds, scale_delta, is_active);
            &&& change.resized == if window.bounds.size.width.units() != bounds.size.width.units()
                || window.bounds.size.height.units() != bounds.size.height.units()
                || scale_delta.units() * pow2(23) > pixel_units() {
                window.resized
            } else {
                None
            }
            &&& change.moved == if window.bounds.origin.x.units() != bounds.origin.x.units()
                || window.bounds.origin.y.units() != bounds.origin.y.units() {
                window.moved
            } else {
                None
            }
            &&& change.active_changed == if window.is_active != is_active {
                window.active
            } else {
                None
            }
        }),
{
    crate::scalar::law_scale_tolerance();
    let tolerance = (Scalar { bits: SCALE_TOLERANCE_BITS }).units();
    lemma_pow2_pos(23);
    let delta = scale_delta.units();
    assert(delta > tolerance <==> delta * pow2(23) > tolerance * pow2(23)) by (nonlinear_arith)
        requires
            pow2(23) > 0,
    ;
}

/// A window that takes over the host's state has exactly the bounds, scale and
/// activity the host reported.
pub proof fn law_window_takes_over_host_state<K: HostTypes>(
    window: BevyPlatformWindow<K>,
    bounds: Bounds,
    scale_factor: Scalar,
    scale_delta: Scalar,
    is_active: bool,
)
    ensures
        ({
            let after = window.after_host_change(bounds, scale_factor, scale_delta, is_active);
            &&& after.bounds == bounds
            &&& after.scale_factor == scale_factor
            &&& after.is_active == is_active
            &&& after == (BevyPlatformWindow::<K> {
                bounds,
                scale_factor,
                is_active,
                resized: after.resized,
                moved: after.moved,
                active: after.active,
                ..window
            })
        }),
{
}

/// A new window is active, not hovered, dark and at scale one, has its mouse at the
/// origin with nothing pressed, asks the host for nothing and shows an arrow on a
/// transparent background.
pub proof fn law_new_window_is_untouched<K: HostTypes>(
    window: BevyPlatformWindow<K>,
    handle: K::Handle,
    bounds: Bounds,
    display: Rc<K::Display>,
    atlas: Arc<K::Atlas>,
)
    requires
        window.is_fresh(handle, bounds, display, atlas),
    ensures
        window.bounds == bounds && window.handle == handle && window.display == display
            && window.atlas == atlas,
        window.is_active && !window.is_hovered && !window.fullscreen && window.cursor_visible,
        window.appearance is Dark,
        window.cursor_style is Arrow,
        window.background_appearance is Transparent,
        window.scale_factor.units() == pixel_units(),
        window.mouse_position.x.units() == 0 && window.mouse_position.y.units() == 0,
        window.pressed_button is None,
        !window.modifiers.control && !window.modifiers.alt && !window.modifiers.shift
            && !window.modifiers.platform && !window.modifiers.function,
        !window.capslock.on,
        window.latest_snapshot is None,
        window.title@.len() == 0,
        window.output.title is None && window.output.logical_size is None
            && window.output.fullscreen is None && !window.output.minimize
            && !window.output.maximize && !window.output.activate
            && window.output.ime_position is None && window.output.cursor_visible is None
            && window.output.background_appearance is None,
        window.request_frame is None && window.input is None && window.active is None
            && window.hovered is None && window.resized is None && window.moved is None
            && window.should_close is None && window.close is None && window.hit_test is None
            && window.appearance_changed is None && window.input_handler is None,
        window.raw_window_handle is None && window.raw_display_handle is None,
{
    vstd::arithmetic::power2::lemma2_to64();
    crate::scalar::lemma_whole_pixels(UNIT_SCALE_BITS, 1, 127);
}

/// Composed text replaces the composition as it is, with the cursor it came with; empty
/// text drops it; accepted text is inserted as it is.
pub proof fn law_composition_edits_carry_the_text(
    value: String,
    selected: Option<Range<usize>>,
    shown: TextEdit,
    accepted: TextEdit,
)
    requires
        call_ensures(preedit_edit, (&value, selected), shown),
        call_ensures(commit_edit, (&value,), accepted),
    ensures
        value@.len() == 0 ==> shown is Unmark,
        value@.len() != 0 ==> (shown matches TextEdit::ReplaceAndMark { text, selected: range }
            && text@ == value@ && range == selected),
        accepted matches TextEdit::Commit { text } && text@ == value@,
{
}

/// A window that is told whether it is hovered calls back exactly where that is news, and
/// has it from then on.
pub proof fn law_hover_is_called_back<K: HostTypes>(
    window: &mut BevyPlatformWindow<K>,
    hovered: bool,
    called: Option<K::FlagCallback>,
)
    requires
        call_ensures(BevyPlatformWindow::<K>::begin_set_hovered, (window, hovered), called),
    ensures
        final(window).is_hovered == hovered,
        old(window).is_hovered == hovered ==> called is None,
        old(window).is_hovered != hovered ==> called == old(window).hovered,
        *final(window) == (BevyPlatformWindow::<K> {
            is_hovered: hovered,
            hovered: final(window).hovered,
            ..*old(window)
        }),
{
}

/// An appearance is called back exactly where it is another one, and stays.
pub proof fn law_new_appearance_is_called_back<K: HostTypes>(
    window: &mut BevyPlatformWindow<K>,
    appearance: WindowAppearance,
    called: Option<K::UnitCallback>,
)
    requires
        call_ensures(BevyPlatformWindow::<K>::begin_host_appearance, (window, appearance), called),
    ensures
        final(window).appearance == appearance,
        old(window).appearance == appearance ==> called is None,
        old(window).appearance != appearance ==> called == old(window).appearance_changed,
{
}

/// Each request to the host is noted as that request and as no other.
pub proof fn law_requests_stay_apart<K: HostTypes>(
    minimized: &mut BevyPlatformWindow<K>,
    zoomed: &mut BevyPlatformWindow<K>,
    activated: &mut BevyPlatformWindow<K>,
    toggled: &mut BevyPlatformWindow<K>,
    resized: &mut BevyPlatformWindow<K>,
    size: Size,
)
    requires
        call_ensures(BevyPlatformWindow::<K>::minimize, (minimized,), ()),
        call_ensures(BevyPlatformWindow::<K>::zoom, (zoomed,), ()),
        call_ensures(BevyPlatformWindow::<K>::activate, (activated,), ()),
        call_ensures(BevyPlatformWindow::<K>::toggle_fullscreen, (toggled,), ()),
        call_ensures(BevyPlatformWindow::<K>::resize, (resized, size), ()),
    ensures
        final(minimized).output.minimize && final(minimized).output.maximize == old(
            minimized,
        ).output.maximize && final(minimized).output.activate == old(minimized).output.activate,
        final(zoomed).output.maximize && final(zoomed).output.minimize == old(
            zoomed,
        ).output.minimize && final(zoomed).output.activate == old(zoomed).output.activate,
        final(activated).output.activate && final(activated).output.minimize == old(
            activated,
        ).output.minimize && final(activated).output.maximize == old(activated).output.maximize,
        final(toggled).fullscreen == !old(toggled).fullscreen && final(toggled).output.fullscreen
            == Some(final(toggled).fullscreen),
        final(resized).bounds.size == size && final(resized).output.logical_size == Some(size)
            && final(resized).bounds.origin == old(resized).bounds.origin,
{
}

} // verus!
