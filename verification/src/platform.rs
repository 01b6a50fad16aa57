//! The adapter between the embedded application and its host.
use crate::cursor::CursorStyle;
use crate::geometry::{Bounds, Point, Size};
use crate::host::HostTypes;
use crate::ids::{ascending, ascending_ids, copy_map, lists, map_ids, retain_ids};
use crate::input::{MouseButton, PlatformInput, RoutedInput, WindowAppearance};
use crate::keys::{Capslock, Modifiers};
use crate::scalar::Scalar;
use crate::window::{BevyPlatformWindow, BevyWindowOutput, HostStateChange};
use raw_window_handle::{RawDisplayHandle, RawWindowHandle};
use std::collections::HashMap;
use std::rc::Rc;
use std::sync::Arc;
use vstd::prelude::*;

verus! {

broadcast use vstd::std_specs::hash::group_hash_axioms;

/// The adapter's state: its windows by context id, its displays by display id,
/// and what the application asked of it.
pub struct BevyPlatform<K: HostTypes> {
    atlas: Arc<K::Atlas>,
    display: Rc<K::Display>,
    displays: HashMap<u64, Rc<K::Display>>,
    primary_display_id: u64,
    windows: HashMap<u64, BevyPlatformWindow<K>>,
    scene_generations: HashMap<u64, u64>,
    pending_context: Option<u64>,
    active_context: Option<u64>,
    clipboard: Option<K::ClipboardItem>,
    cursor: CursorStyle,
    appearance: WindowAppearance,
    quit_requested: bool,
    quit_callbacks: Vec<K::UnitCallback>,
    reopen_callbacks: Vec<K::UnitCallback>,
}

/// The adapter's state as plain values.
#[verifier::ext_equal]
#[verifier::reject_recursive_types(K)]
pub struct PlatformView<K: HostTypes> {
    /// The texture atlas shared with the renderer.
    pub atlas: Arc<K::Atlas>,
    /// The display used where none is known.
    pub display: Rc<K::Display>,
    /// Displays by id.
    pub displays: Map<u64, Rc<K::Display>>,
    /// The id of the primary display.
    pub primary_display_id: u64,
    /// Windows by context id.
    pub windows: Map<u64, BevyPlatformWindow<K>>,
    /// The latest scene generations of contexts from adapters before this one.
    pub scene_generations: Map<u64, u64>,
    /// The context whose window is being opened.
    pub pending_context: Option<u64>,
    /// The context whose callback is running.
    pub active_context: Option<u64>,
    /// Content of the clipboard.
    pub clipboard: Option<K::ClipboardItem>,
    /// The cursor shape set last.
    pub cursor: CursorStyle,
    /// The appearance set last.
    pub appearance: WindowAppearance,
    /// Whether the application asked to quit.
    pub quit_requested: bool,
    /// Callbacks that hear of quitting.
    pub quit_callbacks: Seq<K::UnitCallback>,
    /// Callbacks that hear of reopening.
    pub reopen_callbacks: Seq<K::UnitCallback>,
}

/// A window callback that is about to run, with the context that was active
/// before.
pub struct Dispatch<C> {
    /// The context to make active again.
    pub previous: Option<u64>,
    /// The callback, if the window has one.
    pub callback: Option<C>,
}

/// Why the adapter refused to open a window.
#[derive(Clone, Copy, Debug, PartialEq, Eq, Structural)]
pub enum OpenError {
    /// Another window is being opened.
    AlreadyOpening,
    /// No context was announced for the window.
    NoPendingContext,
}

impl OpenError {
    /// The message of an error.
    pub open spec fn message_spec(self) -> Seq<char> {
        match self {
            OpenError::AlreadyOpening => "another embedded GPUI window is already opening"@,
            OpenError::NoPendingContext => "GPUI opened a window without a Bevy context binding"@,
        }
    }

    /// The message of an error.
    pub fn message(self) -> (r: String)
        ensures
            r@ == self.message_spec(),
    {
        match self {
            OpenError::AlreadyOpening => "another embedded GPUI window is already opening",
            OpenError::NoPendingContext => "GPUI opened a window without a Bevy context binding",
        }.to_owned()
    }
}

impl<K: HostTypes> View for BevyPlatform<K> {
    type V = PlatformView<K>;

    closed spec fn view(&self) -> PlatformView<K> {
        PlatformView {
            atlas: self.atlas,
            display: self.display,
            displays: self.displays@,
            primary_display_id: self.primary_display_id,
            windows: self.windows@,
            scene_generations: self.scene_generations@,
            pending_context: self.pending_context,
            active_context: self.active_context,
            clipboard: self.clipboard,
            cursor: self.cursor,
            appearance: self.appearance,
            quit_requested: self.quit_requested,
            quit_callbacks: self.quit_callbacks@,
            reopen_callbacks: self.reopen_callbacks@,
        }
    }
}

impl<K: HostTypes> PlatformView<K> {
    /// The state with one window replaced.
    pub open spec fn with_window(self, id: u64, window: BevyPlatformWindow<K>) -> PlatformView<K> {
        PlatformView { windows: self.windows.insert(id, window), ..self }
    }

    /// The generation of the latest scene of a context, in this adapter or one before
    /// it, or zero.
    pub open spec fn last_generation(self, id: u64) -> u64 {
        if self.windows.contains_key(id) {
            self.windows[id].scene_generation
        } else if self.scene_generations.contains_key(id) {
            self.scene_generations[id]
        } else {
            0
        }
    }

    /// The scene of a context that waits to be taken.
    pub open spec fn waiting_scene(self, id: u64) -> Option<K::Snapshot> {
        if self.windows.contains_key(id) {
            self.windows[id].latest_snapshot
        } else {
            None
        }
    }

    /// The latest scene generations of all contexts known to the adapter.
    pub open spec fn all_generations(self) -> Map<u64, u64> {
        Map::new(
            |id: u64| self.windows.contains_key(id) || self.scene_generations.contains_key(id),
            |id: u64| self.last_generation(id),
        )
    }

    /// The state once the scenes of contexts go on from given generations.
    pub open spec fn carrying(self, generations: Map<u64, u64>) -> PlatformView<K> {
        PlatformView { scene_generations: generations, ..self }
    }

    /// The state once a context was announced.
    pub open spec fn prepared(self, id: u64) -> PlatformView<K> {
        PlatformView { pending_context: Some(id), ..self }
    }

    /// The state once the announcement of a context was withdrawn.
    pub open spec fn cancelled(self, id: u64) -> PlatformView<K> {
        if self.pending_context == Some(id) {
            PlatformView { pending_context: None, ..self }
        } else {
            self
        }
    }

    /// The state while the input callback of a context runs.
    pub open spec fn in_dispatch(self, id: u64, input: PlatformInput) -> PlatformView<K> {
        PlatformView {
            active_context: Some(id),
            ..self.with_window(
                id,
                BevyPlatformWindow::<K> { input: None, ..self.windows[id].after_input(input) },
            )
        }
    }

    /// The state once an input callback is back in its slot.
    pub open spec fn dispatched(self, id: u64, dispatch: Dispatch<K::InputCallback>) -> PlatformView<
        K,
    > {
        PlatformView {
            active_context: dispatch.previous,
            windows: if self.windows.contains_key(id) && dispatch.callback is Some {
                self.windows.insert(
                    id,
                    BevyPlatformWindow::<K> { input: dispatch.callback, ..self.windows[id] },
                )
            } else {
                self.windows
            },
            ..self
        }
    }

    /// The state once the system clipboard was looked at.
    pub open spec fn refreshed(self, system: Option<K::ClipboardItem>) -> PlatformView<K> {
        PlatformView {
            clipboard: if system is Some {
                system
            } else {
                self.clipboard
            },
            ..self
        }
    }

    /// The state once the application wrote to the clipboard.
    pub open spec fn written(self, item: K::ClipboardItem) -> PlatformView<K> {
        PlatformView { clipboard: Some(item), ..self }
    }

    /// The mouse position of a context's window, or the origin.
    pub open spec fn mouse_position(self, id: u64) -> Point {
        if self.windows.contains_key(id) {
            self.windows[id].mouse_position
        } else {
            Point::origin_spec()
        }
    }

    /// The button held in a context's window.
    pub open spec fn pressed_button(self, id: u64) -> Option<MouseButton> {
        if self.windows.contains_key(id) {
            self.windows[id].pressed_button
        } else {
            None
        }
    }
}

impl<K: HostTypes> BevyPlatform<K> {
    /// An adapter without windows or displays.
    pub fn new(atlas: Arc<K::Atlas>, display: Rc<K::Display>) -> (r: Self)
        ensures
            r@ == (PlatformView::<K> {
                atlas,
                display,
                displays: Map::empty(),
                primary_display_id: 1,
                windows: Map::empty(),
                scene_generations: Map::empty(),
                pending_context: None,
                active_context: None,
                clipboard: None,
                cursor: CursorStyle::Arrow,
                appearance: WindowAppearance::Dark,
                quit_requested: false,
                quit_callbacks: Seq::empty(),
                reopen_callbacks: Seq::empty(),
            }),
    {
        BevyPlatform {
            atlas,
            display,
            displays: HashMap::new(),
            primary_display_id: 1,
            windows: HashMap::new(),
            scene_generations: HashMap::new(),
            pending_context: None,
            active_context: None,
            clipboard: None,
            cursor: CursorStyle::Arrow,
            appearance: WindowAppearance::Dark,
            quit_requested: false,
            quit_callbacks: Vec::new(),
            reopen_callbacks: Vec::new(),
        }
    }

    /// The window of a context.
    pub fn window(&self, id: u64) -> (r: Option<&BevyPlatformWindow<K>>)
        ensures
            r == (if self@.windows.contains_key(id) {
                Some(&self@.windows[id])
            } else {
                None
            }),
    {
        self.windows.get(&id)
    }

    /// Takes the window of a context out, to change it and put it back with
    /// [`BevyPlatform::put_window`].
    pub fn take_window(&mut self, id: u64) -> (r: Option<BevyPlatformWindow<K>>)
        ensures
            r == (if old(self)@.windows.contains_key(id) {
                Some(old(self)@.windows[id])
            } else {
                None
            }),
            final(self)@ == (PlatformView::<K> {
                windows: old(self)@.windows.remove(id),
                ..old(self)@
            }),
            !old(self)@.windows.contains_key(id) ==> final(self)@ == old(self)@,
    {
        let window = self.windows.remove(&id);
        proof {
            if window is None {
                assert(old(self)@.windows.remove(id) =~= old(self)@.windows);
            }
        }
        window
    }

    /// Puts the window of a context in place.
    pub fn put_window(&mut self, id: u64, window: BevyPlatformWindow<K>)
        ensures
            final(self)@ == old(self)@.with_window(id, window),
    {
        self.windows.insert(id, window);
    }

    /// Announces the context of the next window to open. The announcement stands
    /// even where another window is still being opened, which is an error.
    pub fn prepare_open_context(&mut self, id: u64) -> (r: Result<(), OpenError>)
        ensures
            r == (if old(self)@.pending_context is Some {
                Err::<(), OpenError>(OpenError::AlreadyOpening)
            } else {
                Ok(())
            }),
            final(self)@ == old(self)@.prepared(id),
    {
        let opening: bool = self.pending_context.is_some();
        self.pending_context = Some(id);
        if opening {
            Err(OpenError::AlreadyOpening)
        } else {
            Ok(())
        }
    }

    /// Withdraws the announcement of a context, if it is the one that stands.
    pub fn cancel_open_context(&mut self, id: u64)
        ensures
            final(self)@ == old(self)@.cancelled(id),
    {
        if let Some(pending) = self.pending_context {
            if pending == id {
                self.pending_context = None;
            }
        }
    }

    /// The latest scene generations of all contexts known to the adapter.
    pub fn scene_generations(&self) -> (r: HashMap<u64, u64>)
        ensures
            r@ == self@.all_generations(),
    {
        let ids = map_ids(&self.windows);
        let mut out = copy_map(&self.scene_generations);
        let mut index: usize = 0;
        while index < ids.len()
            invariant
                index <= ids@.len(),
                lists(ids@, self.windows@.dom()),
                self@.windows == self.windows@,
                self@.scene_generations == self.scene_generations@,
                forall|id: u64| #[trigger]
                    out@.dom().contains(id) ==> self@.all_generations().contains_key(id) && (
                    out@[id] == self@.last_generation(id) || (self@.windows.contains_key(id)
                        && !ids@.take(index as int).contains(id))),
                forall|id: u64| #[trigger]
                    self@.scene_generations.dom().contains(id) ==> out@.contains_key(id),
                forall|i: int| 0 <= i < index ==> out@.contains_key(#[trigger] ids@[i]),
            decreases ids@.len() - index,
        {
            let id: u64 = ids[index];
            proof {
                assert(ids@.to_set().contains(id));
                let done = ids@.take(index as int);
                let next = ids@.take(index + 1);
                assert forall|k: u64| next.contains(k) implies done.contains(k) || k == id by {
                    let i = choose|i: int| 0 <= i < next.len() && next[i] == k;
                    if i < index {
                        assert(done[i] == k);
                    }
                }
            }
            if let Some(window) = self.windows.get(&id) {
                out.insert(id, window.scene_generation);
            }
            index = index + 1;
        }
        proof {
            assert(ids@.take(ids@.len() as int) =~= ids@);
            assert forall|id: u64| self@.windows.contains_key(id) implies ids@.contains(id)
                && out@.contains_key(id) by {
                assert(ids@.to_set().contains(id));
                let i = choose|i: int| 0 <= i < ids@.len() && ids@[i] == id;
                assert(out@.contains_key(ids@[i]));
            }
            assert(out@ =~= self@.all_generations());
        }
        out
    }

    /// Lets the scenes of contexts go on from given generations.
    pub fn carry_scene_generations(&mut self, generations: &HashMap<u64, u64>)
        ensures
            final(self)@ == old(self)@.carrying(generations@),
    {
        self.scene_generations = copy_map(generations);
    }

    /// Opens the window of the announced context on the default display, and
    /// returns that context's id. Its scenes go on from the latest generation of that
    /// context.
    pub fn open_window(&mut self, handle: K::Handle, bounds: Bounds) -> (r: Result<u64, OpenError>)
        ensures
            match old(self)@.pending_context {
                None => r == Err::<u64, OpenError>(OpenError::NoPendingContext) && final(self)@ == old(
                    self,
                )@,
                Some(id) => {
                    &&& r == Ok::<u64, OpenError>(id)
                    &&& final(self)@.windows.contains_key(id)
                    &&& final(self)@.windows[id].is_opened(
                        handle,
                        bounds,
                        old(self)@.display,
                        old(self)@.atlas,
                        old(self)@.last_generation(id),
                    )
                    &&& final(self)@ == (PlatformView::<K> {
                        pending_context: None,
                        ..old(self)@.with_window(id, final(self)@.windows[id])
                    })
                },
            },
    {
        match self.pending_context.take() {
            None => Err(OpenError::NoPendingContext),
            Some(id) => {
                let generation: u64 = match self.windows.get(&id) {
                    Some(window) => window.scene_generation,
                    None => match self.scene_generations.get(&id) {
                        Some(generation) => *generation,
                        None => 0,
                    },
                };
                let mut window = BevyPlatformWindow::new(
                    handle,
                    bounds,
                    self.display.clone(),
                    self.atlas.clone(),
                );
                window.scene_generation = generation;
                self.windows.insert(id, window);
                Ok(id)
            },
        }
    }

    /// Forgets the window of a context and hands it out.
    pub fn remove_context(&mut self, id: u64) -> (r: Option<BevyPlatformWindow<K>>)
        ensures
            r == (if old(self)@.windows.contains_key(id) {
                Some(old(self)@.windows[id])
            } else {
                None
            }),
            final(self)@ == (PlatformView::<K> {
                windows: old(self)@.windows.remove(id),
                ..old(self)@
            }),
    {
        self.take_window(id)
    }

    /// Takes the requests a context's window collected for its host window.
    pub fn take_window_output(&mut self, id: u64) -> (r: BevyWindowOutput)
        ensures
            !old(self)@.windows.contains_key(id) ==> r == BevyWindowOutput::none_spec()
                && final(self)@ == old(self)@,
            old(self)@.windows.contains_key(id) ==> r == old(self)@.windows[id].output
                && final(self)@ == old(self)@.with_window(
                id,
                BevyPlatformWindow::<K> {
                    output: BevyWindowOutput::none_spec(),
                    ..old(self)@.windows[id]
                },
            ),
    {
        match self.take_window(id) {
            None => BevyWindowOutput::default(),
            Some(mut window) => {
                let output = window.take_output();
                self.put_window(id, window);
                output
            },
        }
    }

    /// The cursor shape for a context: its window's, or else the shape set last.
    pub fn cursor_style(&self, id: u64) -> (r: CursorStyle)
        ensures
            r == (if self@.windows.contains_key(id) {
                self@.windows[id].cursor_style
            } else {
                self@.cursor
            }),
    {
        match self.windows.get(&id) {
            Some(window) => window.cursor_style,
            None => self.cursor,
        }
    }

    /// Makes a context active and takes out its frame callback, if it has a
    /// window.
    pub fn begin_request_frame(&mut self, id: u64) -> (r: Option<Dispatch<K::FrameCallback>>)
        ensures
            !old(self)@.windows.contains_key(id) ==> r is None && final(self)@ == old(self)@,
            old(self)@.windows.contains_key(id) ==> r == Some(
                Dispatch {
                    previous: old(self)@.active_context,
                    callback: old(self)@.windows[id].request_frame,
                },
            ) && final(self)@ == (PlatformView::<K> {
                active_context: Some(id),
                ..old(self)@.with_window(
                    id,
                    BevyPlatformWindow::<K> { request_frame: None, ..old(self)@.windows[id] },
                )
            }),
    {
        match self.take_window(id) {
            None => None,
            Some(mut window) => {
                let callback = window.begin_request_frame();
                self.put_window(id, window);
                let previous = self.active_context;
                self.active_context = Some(id);
                Some(Dispatch { previous, callback })
            },
        }
    }

    /// Puts the frame callback of a context back and restores the active context.
    pub fn finish_request_frame(&mut self, id: u64, dispatch: Dispatch<K::FrameCallback>)
        ensures
            final(self)@ == (PlatformView::<K> {
                active_context: dispatch.previous,
                windows: if old(self)@.windows.contains_key(id) && dispatch.callback is Some {
                    old(self)@.windows.insert(
                        id,
                        BevyPlatformWindow::<K> {
                            request_frame: dispatch.callback,
                            ..old(self)@.windows[id]
                        },
                    )
                } else {
                    old(self)@.windows
                },
                ..old(self)@
            }),
    {
        if let Some(callback) = dispatch.callback {
            match self.take_window(id) {
                None => {},
                Some(mut window) => {
                    window.finish_request_frame(callback);
                    self.put_window(id, window);
                },
            }
        }
        self.active_context = dispatch.previous;
    }

    /// Takes the latest scene of a context's window with its generation.
    pub fn take_latest_snapshot(&mut self, id: u64) -> (r: Option<(u64, K::Snapshot)>)
        ensures
            !old(self)@.windows.contains_key(id) ==> r is None && final(self)@ == old(self)@,
            old(self)@.windows.contains_key(id) ==> {
                let window = old(self)@.windows[id];
                &&& r == (match window.latest_snapshot {
                    Some(snapshot) => Some((window.scene_generation, snapshot)),
                    None => None,
                })
                &&& final(self)@ == old(self)@.with_window(
                    id,
                    BevyPlatformWindow::<K> { latest_snapshot: None, ..window },
                )
            },
    {
        match self.take_window(id) {
            None => None,
            Some(mut window) => {
                let latest = window.take_latest_snapshot();
                self.put_window(id, window);
                latest
            },
        }
    }

    /// Takes the callbacks that hear of quitting.
    pub fn begin_quit(&mut self) -> (r: Vec<K::UnitCallback>)
        ensures
            r@ == old(self)@.quit_callbacks,
            final(self)@ == (PlatformView::<K> { quit_callbacks: Seq::empty(), ..old(self)@ }),
    {
        let mut callbacks: Vec<K::UnitCallback> = Vec::new();
        std::mem::swap(&mut callbacks, &mut self.quit_callbacks);
        callbacks
    }

    /// Puts the callbacks that hear of quitting back, before any installed
    /// meanwhile, and notes that the application wants to quit.
    pub fn finish_quit(&mut self, callbacks: Vec<K::UnitCallback>)
        ensures
            final(self)@ == (PlatformView::<K> {
                quit_callbacks: callbacks@ + old(self)@.quit_callbacks,
                quit_requested: true,
                ..old(self)@
            }),
    {
        let mut all: Vec<K::UnitCallback> = callbacks;
        let mut added: Vec<K::UnitCallback> = Vec::new();
        std::mem::swap(&mut added, &mut self.quit_callbacks);
        all.append(&mut added);
        self.quit_callbacks = all;
        self.quit_requested = true;
    }

    /// Whether the application asked to quit since the last call.
    pub fn quit_requested(&mut self) -> (r: bool)
        ensures
            r == old(self)@.quit_requested,
            final(self)@ == (PlatformView::<K> { quit_requested: false, ..old(self)@ }),
    {
        let requested: bool = self.quit_requested;
        self.quit_requested = false;
        requested
    }

    /// Installs a callback that hears of quitting.
    pub fn on_quit(&mut self, callback: K::UnitCallback)
        ensures
            final(self)@ == (PlatformView::<K> {
                quit_callbacks: old(self)@.quit_callbacks.push(callback),
                ..old(self)@
            }),
    {
        self.quit_callbacks.push(callback);
    }

    /// Installs a callback that hears of reopening.
    pub fn on_reopen(&mut self, callback: K::UnitCallback)
        ensures
            final(self)@ == (PlatformView::<K> {
                reopen_callbacks: old(self)@.reopen_callbacks.push(callback),
                ..old(self)@
            }),
    {
        self.reopen_callbacks.push(callback);
    }

    /// The mouse position of a context's window, or the origin.
    pub fn mouse_position(&self, id: u64) -> (r: Point)
        ensures
            r == self@.mouse_position(id),
    {
        match self.windows.get(&id) {
            Some(window) => window.mouse_position,
            None => Point::origin(),
        }
    }

    /// The button held in a context's window.
    pub fn pressed_button(&self, id: u64) -> (r: Option<MouseButton>)
        ensures
            r == self@.pressed_button(id),
    {
        match self.windows.get(&id) {
            Some(window) => window.pressed_button,
            None => None,
        }
    }

    /// The event as the window of a context receives it. `local` is the position
    /// of a cursor move relative to that window.
    pub fn deliver(&self, id: u64, input: RoutedInput, local: Point) -> (r: PlatformInput)
        ensures
            r == input.delivered(self@.mouse_position(id), self@.pressed_button(id), local),
    {
        let mouse = self.mouse_position(id);
        let pressed = self.pressed_button(id);
        input.deliver(mouse, pressed, local)
    }

    /// Notes an input event in a context's window, makes the context active and
    /// takes out the callback to run. A context without a window gets nothing.
    pub fn begin_dispatch(&mut self, id: u64, input: &PlatformInput) -> (r: Option<
        Dispatch<K::InputCallback>,
    >)
        ensures
            !old(self)@.windows.contains_key(id) ==> r is None && final(self)@ == old(self)@,
            old(self)@.windows.contains_key(id) ==> r == Some(
                Dispatch {
                    previous: old(self)@.active_context,
                    callback: old(self)@.windows[id].input,
                },
            ) && final(self)@ == old(self)@.in_dispatch(id, *input),
    {
        match self.take_window(id) {
            None => None,
            Some(mut window) => {
                let callback = window.begin_input(input);
                self.put_window(id, window);
                let previous = self.active_context;
                self.active_context = Some(id);
                Some(Dispatch { previous, callback })
            },
        }
    }

    /// Puts the input callback of a context back and restores the active context.
    pub fn finish_dispatch(&mut self, id: u64, dispatch: Dispatch<K::InputCallback>)
        ensures
            final(self)@ == old(self)@.dispatched(id, dispatch),
    {
        if let Some(callback) = dispatch.callback {
            match self.take_window(id) {
                None => {},
                Some(mut window) => {
                    window.finish_input(callback);
                    self.put_window(id, window);
                },
            }
        }
        self.active_context = dispatch.previous;
    }

    /// Sets the keyboard state a context's window reports.
    pub fn set_keyboard_state(&mut self, id: u64, modifiers: Modifiers, capslock: Capslock)
        ensures
            final(self)@ == (if old(self)@.windows.contains_key(id) {
                old(self)@.with_window(
                    id,
                    BevyPlatformWindow::<K> { modifiers, capslock, ..old(self)@.windows[id] },
                )
            } else {
                old(self)@
            }),
    {
        match self.take_window(id) {
            None => {},
            Some(mut window) => {
                window.set_keyboard_state(modifiers, capslock);
                self.put_window(id, window);
            },
        }
    }

    /// Takes the text field of a context's window out, to query or edit it.
    pub fn take_input_handler(&mut self, id: u64) -> (r: Option<K::InputHandler>)
        ensures
            !old(self)@.windows.contains_key(id) ==> r is None && final(self)@ == old(self)@,
            old(self)@.windows.contains_key(id) ==> r == old(self)@.windows[id].input_handler
                && final(self)@ == old(self)@.with_window(
                id,
                BevyPlatformWindow::<K> { input_handler: None, ..old(self)@.windows[id] },
            ),
    {
        match self.take_window(id) {
            None => None,
            Some(mut window) => {
                let handler = window.take_input_handler();
                self.put_window(id, window);
                handler
            },
        }
    }

    /// Puts the text field of a context's window back.
    pub fn restore_input_handler(&mut self, id: u64, handler: K::InputHandler)
        ensures
            final(self)@ == (if old(self)@.windows.contains_key(id) {
                old(self)@.with_window(
                    id,
                    BevyPlatformWindow::<K> {
                        input_handler: Some(handler),
                        ..old(self)@.windows[id]
                    },
                )
            } else {
                old(self)@
            }),
    {
        match self.take_window(id) {
            None => {},
            Some(mut window) => {
                window.set_input_handler(handler);
                self.put_window(id, window);
            },
        }
    }

    /// The bounds that a viewport of some size gives a window.
    pub open spec fn viewport_bounds(size: Size) -> Bounds {
        Bounds { origin: Point::origin_spec(), size }
    }

    /// Takes over viewport, scale and activity for a context's window, and takes
    /// out the callbacks of whatever changed.
    pub fn begin_sync_window(
        &mut self,
        id: u64,
        viewport: Size,
        scale_factor: Scalar,
        scale_delta: Scalar,
        active: bool,
    ) -> (r: Option<HostStateChange<K>>)
        ensures
            !old(self)@.windows.contains_key(id) ==> r is None && final(self)@ == old(self)@,
            old(self)@.windows.contains_key(id) ==> {
                let window = old(self)@.windows[id];
                let bounds = Self::viewport_bounds(viewport);
                &&& r == Some(window.host_change(bounds, scale_delta, active))
                &&& final(self)@ == old(self)@.with_window(
                    id,
                    window.after_host_change(bounds, scale_factor, scale_delta, active),
                )
            },
    {
        match self.take_window(id) {
            None => None,
            Some(mut window) => {
                let change = window.begin_sync_host_state(
                    Bounds { origin: Point::origin(), size: viewport },
                    scale_factor,
                    scale_delta,
                    active,
                );
                self.put_window(id, window);
                Some(change)
            },
        }
    }

    /// Takes over the activity of a context's window alone, and takes out the
    /// callbacks of whatever changed.
    pub fn begin_set_context_active(&mut self, id: u64, active: bool) -> (r: Option<
        HostStateChange<K>,
    >)
        ensures
            !old(self)@.windows.contains_key(id) ==> r is None && final(self)@ == old(self)@,
            old(self)@.windows.contains_key(id) ==> {
                let window = old(self)@.windows[id];
                let still = Scalar { bits: 0 };
                &&& r == Some(window.host_change(window.bounds, still, active))
                &&& final(self)@ == old(self)@.with_window(
                    id,
                    window.after_host_change(window.bounds, window.scale_factor, still, active),
                )
            },
    {
        match self.take_window(id) {
            None => None,
            Some(mut window) => {
                let bounds = window.bounds;
                let scale = window.scale_factor;
                let change = window.begin_sync_host_state(bounds, scale, Scalar::zero(), active);
                self.put_window(id, window);
                Some(change)
            },
        }
    }

    /// Puts the callbacks of a host change back.
    pub fn finish_sync_window(&mut self, id: u64, change: HostStateChange<K>)
        ensures
            final(self)@ == (if old(self)@.windows.contains_key(id) {
                old(self)@.with_window(id, old(self)@.windows[id].with_callbacks(change))
            } else {
                old(self)@
            }),
    {
        match self.take_window(id) {
            None => {},
            Some(mut window) => {
                window.finish_sync_host_state(change);
                self.put_window(id, window);
            },
        }
    }

    /// Notes the appearance as the one set last, hands it to a context's window
    /// and takes out the callback to run.
    pub fn begin_set_window_appearance(&mut self, id: u64, appearance: WindowAppearance) -> (r:
        Option<K::UnitCallback>)
        ensures
            !old(self)@.windows.contains_key(id) ==> r is None && final(self)@ == (PlatformView::<
                K,
            > { appearance, ..old(self)@ }),
            old(self)@.windows.contains_key(id) && old(self)@.windows[id].appearance == appearance
                ==> r is None && final(self)@ == (PlatformView::<K> { appearance, ..old(self)@ }),
            old(self)@.windows.contains_key(id) && old(self)@.windows[id].appearance != appearance
                ==> r == old(self)@.windows[id].appearance_changed && final(self)@ == (PlatformView::<
                K,
            > {
                appearance,
                ..old(self)@.with_window(
                    id,
                    BevyPlatformWindow::<K> {
                        appearance,
                        appearance_changed: None,
                        ..old(self)@.windows[id]
                    },
                )
            }),
    {
        self.appearance = appearance;
        let ghost windows = self@.windows;
        match self.take_window(id) {
            None => None,
            Some(mut window) => {
                let callback = window.begin_host_appearance(appearance);
                self.put_window(id, window);
                proof {
                    assert(windows.remove(id).insert(id, window) =~= windows.insert(id, window));
                    if old(self)@.windows[id].appearance == appearance {
                        assert(windows.insert(id, window) =~= windows);
                    }
                }
                callback
            },
        }
    }

    /// Puts the appearance callback of a context's window back.
    pub fn finish_set_window_appearance(&mut self, id: u64, callback: K::UnitCallback)
        ensures
            final(self)@ == (if old(self)@.windows.contains_key(id) {
                old(self)@.with_window(
                    id,
                    BevyPlatformWindow::<K> { appearance_changed: Some(callback), ..old(self)@.windows[id] },
                )
            } else {
                old(self)@
            }),
    {
        match self.take_window(id) {
            None => {},
            Some(mut window) => {
                window.finish_host_appearance(callback);
                self.put_window(id, window);
            },
        }
    }

    /// Takes out the move callback of a context's window.
    pub fn begin_notify_window_moved(&mut self, id: u64) -> (r: Option<K::UnitCallback>)
        ensures
            !old(self)@.windows.contains_key(id) ==> r is None && final(self)@ == old(self)@,
            old(self)@.windows.contains_key(id) ==> r == old(self)@.windows[id].moved && final(self)@
                == old(self)@.with_window(
                id,
                BevyPlatformWindow::<K> { moved: None, ..old(self)@.windows[id] },
            ),
    {
        let ghost windows = self@.windows;
        match self.take_window(id) {
            None => None,
            Some(mut window) => {
                let callback = window.begin_host_moved();
                self.put_window(id, window);
                proof {
                    assert(windows.remove(id).insert(id, window) =~= windows.insert(id, window));
                    if window == windows[id] {
                        assert(windows.insert(id, window) =~= windows);
                    }
                }
                callback
            },
        }
    }

    /// Puts the move callback of a context's window back.
    pub fn finish_notify_window_moved(&mut self, id: u64, callback: K::UnitCallback)
        ensures
            final(self)@ == (if old(self)@.windows.contains_key(id) {
                old(self)@.with_window(
                    id,
                    BevyPlatformWindow::<K> { moved: Some(callback), ..old(self)@.windows[id] },
                )
            } else {
                old(self)@
            }),
    {
        match self.take_window(id) {
            None => {},
            Some(mut window) => {
                window.finish_host_moved(callback);
                self.put_window(id, window);
            },
        }
    }

    /// Takes out the close question of a context's window. A context without a
    /// window, or a window without the question, may close.
    pub fn begin_should_close(&mut self, id: u64) -> (r: Option<K::ShouldCloseCallback>)
        ensures
            !old(self)@.windows.contains_key(id) ==> r is None && final(self)@ == old(self)@,
            old(self)@.windows.contains_key(id) ==> r == old(self)@.windows[id].should_close && final(self)@
                == old(self)@.with_window(
                id,
                BevyPlatformWindow::<K> { should_close: None, ..old(self)@.windows[id] },
            ),
    {
        let ghost windows = self@.windows;
        match self.take_window(id) {
            None => None,
            Some(mut window) => {
                let callback = window.begin_should_close();
                self.put_window(id, window);
                proof {
                    assert(windows.remove(id).insert(id, window) =~= windows.insert(id, window));
                    if window == windows[id] {
                        assert(windows.insert(id, window) =~= windows);
                    }
                }
                callback
            },
        }
    }

    /// Puts the close question of a context's window back.
    pub fn finish_should_close(&mut self, id: u64, callback: K::ShouldCloseCallback)
        ensures
            final(self)@ == (if old(self)@.windows.contains_key(id) {
                old(self)@.with_window(
                    id,
                    BevyPlatformWindow::<K> { should_close: Some(callback), ..old(self)@.windows[id] },
                )
            } else {
                old(self)@
            }),
    {
        match self.take_window(id) {
            None => {},
            Some(mut window) => {
                window.finish_should_close(callback);
                self.put_window(id, window);
            },
        }
    }

    /// Notes whether the pointer is over a context's window and takes out the
    /// callback to run, unless nothing changed.
    pub fn begin_set_hovered(&mut self, id: u64, hovered: bool) -> (r: Option<K::FlagCallback>)
        ensures
            !old(self)@.windows.contains_key(id) ==> r is None && final(self)@ == old(self)@,
            old(self)@.windows.contains_key(id) && old(self)@.windows[id].is_hovered == hovered
                ==> r is None && final(self)@ == old(self)@,
            old(self)@.windows.contains_key(id) && old(self)@.windows[id].is_hovered != hovered
                ==> r == old(self)@.windows[id].hovered && final(self)@ == old(self)@.with_window(
                id,
                BevyPlatformWindow::<K> {
                    is_hovered: hovered,
                    hovered: None,
                    ..old(self)@.windows[id]
                },
            ),
    {
        let ghost windows = self@.windows;
        match self.take_window(id) {
            None => None,
            Some(mut window) => {
                let callback = window.begin_set_hovered(hovered);
                self.put_window(id, window);
                proof {
                    assert(windows.remove(id).insert(id, window) =~= windows.insert(id, window));
                    if window == windows[id] {
                        assert(windows.insert(id, window) =~= windows);
                    }
                }
                callback
            },
        }
    }

    /// Puts the hover callback of a context's window back.
    pub fn finish_set_hovered(&mut self, id: u64, callback: K::FlagCallback)
        ensures
            final(self)@ == (if old(self)@.windows.contains_key(id) {
                old(self)@.with_window(
                    id,
                    BevyPlatformWindow::<K> { hovered: Some(callback), ..old(self)@.windows[id] },
                )
            } else {
                old(self)@
            }),
    {
        match self.take_window(id) {
            None => {},
            Some(mut window) => {
                window.finish_set_hovered(callback);
                self.put_window(id, window);
            },
        }
    }

    /// The display for an id: the known one, or a new one that becomes known. A
    /// primary display is noted as such. Both the returned display and, for a
    /// primary one, the default display take over the reported geometry.
    pub fn sync_display(&mut self, id: u64, fresh: Rc<K::Display>, primary: bool) -> (r: Rc<
        K::Display,
    >)
        ensures
            r == (if old(self)@.displays.contains_key(id) {
                old(self)@.displays[id]
            } else {
                fresh
            }),
            final(self)@ == (PlatformView::<K> {
                displays: old(self)@.displays.insert(id, r),
                primary_display_id: if primary {
                    id
                } else {
                    old(self)@.primary_display_id
                },
                ..old(self)@
            }),
    {
        let display = match self.displays.get(&id) {
            Some(display) => display.clone(),
            None => fresh,
        };
        self.displays.insert(id, display.clone());
        if primary {
            self.primary_display_id = id;
        }
        display
    }

    /// Forgets the displays that are not listed.
    pub fn retain_displays(&mut self, live: &Vec<u64>)
        ensures
            final(self)@ == (PlatformView::<K> {
                displays: old(self)@.displays.restrict(live@.to_set()),
                ..old(self)@
            }),
    {
        retain_ids(&mut self.displays, live);
    }

    /// Moves a context's window to a known display.
    pub fn set_window_display(&mut self, id: u64, display_id: u64)
        ensures
            final(self)@ == (if old(self)@.windows.contains_key(id)
                && old(self)@.displays.contains_key(display_id) {
                old(self)@.with_window(
                    id,
                    BevyPlatformWindow::<K> {
                        display: old(self)@.displays[display_id],
                        ..old(self)@.windows[id]
                    },
                )
            } else {
                old(self)@
            }),
    {
        let display = match self.displays.get(&display_id) {
            Some(display) => display.clone(),
            None => {
                return;
            },
        };
        match self.take_window(id) {
            None => {},
            Some(mut window) => {
                window.set_host_display(display);
                self.put_window(id, window);
            },
        }
    }

    /// Supplies the native handles of a context's host window.
    pub fn set_window_raw_handles(
        &mut self,
        id: u64,
        window: RawWindowHandle,
        display: RawDisplayHandle,
    )
        ensures
            final(self)@ == (if old(self)@.windows.contains_key(id) {
                old(self)@.with_window(
                    id,
                    BevyPlatformWindow::<K> {
                        raw_window_handle: Some(window),
                        raw_display_handle: Some(display),
                        ..old(self)@.windows[id]
                    },
                )
            } else {
                old(self)@
            }),
    {
        match self.take_window(id) {
            None => {},
            Some(mut platform_window) => {
                platform_window.set_raw_handles(window, display);
                self.put_window(id, platform_window);
            },
        }
    }

    /// The known displays by growing id, or the default display where none is
    /// known.
    pub fn displays(&self) -> (r: Vec<Rc<K::Display>>)
        ensures
            self@.displays.dom() == Set::<u64>::empty() ==> r@ == seq![self@.display],
            self@.displays.dom() != Set::<u64>::empty() ==> exists|ids: Seq<u64>| #[trigger]
                ascending(ids) && ids.to_set() == self@.displays.dom() && r@ == ids.map_values(
                    |id: u64| self@.displays[id],
                ),
    {
        let ids = ascending_ids(&self.displays);
        let mut out: Vec<Rc<K::Display>> = Vec::new();
        let ghost pick = |id: u64| self@.displays[id];
        if ids.len() == 0 {
            proof {
                assert(ids@.to_set() =~= Set::<u64>::empty());
            }
            out.push(self.display.clone());
            return out;
        }
        let mut index: usize = 0;
        while index < ids.len()
            invariant
                index <= ids@.len(),
                ids@.to_set() == self.displays@.dom(),
                self@.displays == self.displays@,
                pick == (|id: u64| self@.displays[id]),
                out@ == ids@.take(index as int).map_values(pick),
            decreases ids@.len() - index,
        {
            let id: u64 = ids[index];
            proof {
                assert(ids@.contains(id));
                assert(ids@.to_set().contains(id));
                assert(ids@.take(index + 1).map_values(pick) =~= ids@.take(
                    index as int,
                ).map_values(pick).push(pick(id)));
            }
            if let Some(display) = self.displays.get(&id) {
                out.push(display.clone());
            }
            index = index + 1;
        }
        proof {
            assert(ids@.take(ids@.len() as int) =~= ids@);
            assert(ids@.to_set().contains(ids@[0]));
            assert(ascending(ids@));
        }
        out
    }

    /// The primary display, or the default display where it is not known.
    pub fn primary_display(&self) -> (r: Rc<K::Display>)
        ensures
            r == (if self@.displays.contains_key(self@.primary_display_id) {
                self@.displays[self@.primary_display_id]
            } else {
                self@.display
            }),
    {
        match self.displays.get(&self.primary_display_id) {
            Some(display) => display.clone(),
            None => self.display.clone(),
        }
    }

    /// The context of an active window, or of any window where none is active.
    pub fn active_window(&self) -> (r: Option<u64>)
        ensures
            r is None <==> self@.windows.dom() == Set::<u64>::empty(),
            r matches Some(id) ==> self@.windows.contains_key(id),
            r matches Some(id) ==> self@.windows[id].is_active || forall|other: u64| #[trigger]
                self@.windows.dom().contains(other) ==> !self@.windows[other].is_active,
    {
        let ids = map_ids(&self.windows);
        let mut index: usize = 0;
        while index < ids.len()
            invariant
                index <= ids@.len(),
                ids@.to_set() == self.windows@.dom(),
                self@.windows == self.windows@,
                forall|i: int| 0 <= i < index ==> !self@.windows[#[trigger] ids@[i]].is_active,
            decreases ids@.len() - index,
        {
            let id: u64 = ids[index];
            proof {
                assert(ids@.to_set().contains(id));
            }
            if let Some(window) = self.windows.get(&id) {
                if window.is_active {
                    return Some(id);
                }
            }
            index = index + 1;
        }
        proof {
            assert forall|other: u64| #[trigger] self@.windows.dom().contains(other) implies
                !self@.windows[other].is_active by {
                assert(ids@.to_set().contains(other));
                let i = choose|i: int| 0 <= i < ids@.len() && ids@[i] == other;
                assert(!self@.windows[ids@[i]].is_active);
            }
        }
        if ids.len() == 0 {
            proof {
                assert(self@.windows.dom() =~= Set::<u64>::empty());
            }
            None
        } else {
            proof {
                assert(ids@.to_set().contains(ids@[0]));
            }
            Some(ids[0])
        }
    }

    /// The appearance set last.
    pub fn window_appearance(&self) -> (r: WindowAppearance)
        ensures
            r == self@.appearance,
    {
        self.appearance
    }

    /// Notes a cursor shape as the one set last and shows it over the window
    /// whose callback is running.
    pub fn set_cursor_style(&mut self, style: CursorStyle)
        ensures
            final(self)@ == (match old(self)@.active_context {
                Some(id) => if old(self)@.windows.contains_key(id) {
                    (PlatformView::<K> {
                        cursor: style,
                        ..old(self)@.with_window(
                            id,
                            BevyPlatformWindow::<K> {
                                cursor_style: style,
                                ..old(self)@.windows[id]
                            },
                        )
                    })
                } else {
                    (PlatformView::<K> { cursor: style, ..old(self)@ })
                },
                None => (PlatformView::<K> { cursor: style, ..old(self)@ }),
            }),
    {
        self.cursor = style;
        if let Some(id) = self.active_context {
            match self.take_window(id) {
                None => {},
                Some(mut window) => {
                    window.set_cursor_style(style);
                    self.put_window(id, window);
                },
            }
        }
    }

    /// Hides the cursor over the window whose callback is running.
    pub fn hide_cursor_until_mouse_moves(&mut self)
        ensures
            final(self)@ == (match old(self)@.active_context {
                Some(id) => if old(self)@.windows.contains_key(id) {
                    old(self)@.with_window(
                        id,
                        BevyPlatformWindow::<K> {
                            cursor_visible: false,
                            output: BevyWindowOutput {
                                cursor_visible: Some(false),
                                ..old(self)@.windows[id].output
                            },
                            ..old(self)@.windows[id]
                        },
                    )
                } else {
                    old(self)@
                },
                None => old(self)@,
            }),
    {
        if let Some(id) = self.active_context {
            match self.take_window(id) {
                None => {},
                Some(mut window) => {
                    window.set_cursor_visible(false);
                    self.put_window(id, window);
                },
            }
        }
    }

    /// Whether the cursor shows over the window whose callback is running.
    pub fn is_cursor_visible(&self) -> (r: bool)
        ensures
            r == (match self@.active_context {
                Some(id) => if self@.windows.contains_key(id) {
                    self@.windows[id].cursor_visible
                } else {
                    true
                },
                None => true,
            }),
    {
        match self.active_context {
            Some(id) => match self.windows.get(&id) {
                Some(window) => window.cursor_visible,
                None => true,
            },
            None => true,
        }
    }

    /// Takes over what the system clipboard holds, where it holds text.
    pub fn refresh_clipboard(&mut self, system: Option<K::ClipboardItem>)
        ensures
            final(self)@ == old(self)@.refreshed(system),
    {
        if let Some(item) = system {
            self.clipboard = Some(item);
        }
    }

    /// Content of the clipboard.
    pub fn clipboard(&self) -> (r: Option<&K::ClipboardItem>)
        ensures
            r == (match self@.clipboard {
                Some(item) => Some(&item),
                None => None,
            }),
    {
        match &self.clipboard {
            Some(item) => Some(item),
            None => None,
        }
    }

    /// Replaces the content of the clipboard.
    pub fn write_to_clipboard(&mut self, item: K::ClipboardItem)
        ensures
            final(self)@ == old(self)@.written(item),
    {
        self.clipboard = Some(item);
    }
}

/// What the application writes to the clipboard is what it reads back, and text
/// that the system clipboard holds by then takes precedence and stays.
pub proof fn law_clipboard_reads_back<K: HostTypes>(
    platform: PlatformView<K>,
    item: K::ClipboardItem,
    system: K::ClipboardItem,
)
    ensures
        platform.written(item).refreshed(None).clipboard == Some(item),
        platform.written(item).refreshed(Some(system)).clipboard == Some(system),
        platform.written(item).refreshed(Some(system)).refreshed(None).clipboard == Some(system),
{
}

/// A context that was announced and withdrawn again leaves no trace where none
/// was announced before, and withdrawing one context does not withdraw another.
pub proof fn law_cancel_undoes_prepare<K: HostTypes>(platform: PlatformView<K>, id: u64, other: u64)
    requires
        id != other,
    ensures
        platform.pending_context is None ==> platform.prepared(id).cancelled(id) == platform,
        platform.prepared(id).cancelled(other) == platform.prepared(id),
{
}

/// A dispatch that runs without further calls leaves the callback in its slot and
/// the previously active context active: only what the event itself notes in the
/// window changes.
pub proof fn law_dispatch_restores_callback_and_context<K: HostTypes>(
    platform: PlatformView<K>,
    id: u64,
    input: PlatformInput,
)
    requires
        platform.windows.contains_key(id),
    ensures
        platform.in_dispatch(id, input).dispatched(
            id,
            Dispatch {
                previous: platform.active_context,
                callback: platform.windows[id].input,
            },
        ) == platform.with_window(id, platform.windows[id].after_input(input)),
{
    let window = platform.windows[id];
    let noted = window.after_input(input);
    assert(noted.input == window.input);
    let during = BevyPlatformWindow::<K> { input: None, ..noted };
    let back = BevyPlatformWindow::<K> { input: window.input, ..during };
    assert(back == noted);
    assert(platform.windows.insert(id, during).insert(id, back) =~= platform.windows.insert(
        id,
        noted,
    ));
}

/// Whether a step of an adapter keeps the scenes of a context: none is finished.
pub open spec fn keeps_scenes<K: HostTypes>(
    before: PlatformView<K>,
    after: PlatformView<K>,
    id: u64,
) -> bool {
    &&& after.last_generation(id) == before.last_generation(id)
    &&& after.waiting_scene(id) is Some ==> after.waiting_scene(id) == before.waiting_scene(id)
}

/// Whether a step of an adapter finishes a scene of a context, while there are
/// generations left.
pub open spec fn finishes_scene<K: HostTypes>(
    before: PlatformView<K>,
    after: PlatformView<K>,
    id: u64,
) -> bool {
    &&& before.windows.contains_key(id)
    &&& before.last_generation(id) < u64::MAX
    &&& after.waiting_scene(id) matches Some(snapshot) && after == before.with_window(
        id,
        before.windows[id].drawn(snapshot),
    )
}

/// Opening the window of a context, taking its scene, and replacing the adapter by one
/// that carries its generations keep the scenes of every context: nothing falls back.
pub proof fn law_generations_survive<K: HostTypes>(
    before: PlatformView<K>,
    opened: u64,
    window: BevyPlatformWindow<K>,
    replacement: PlatformView<K>,
    id: u64,
)
    requires
        window.scene_generation == before.last_generation(opened),
        window.latest_snapshot is None,
        replacement.windows == Map::<u64, BevyPlatformWindow<K>>::empty(),
    ensures
        keeps_scenes(
            before,
            PlatformView::<K> { pending_context: None, ..before.with_window(opened, window) },
            id,
        ),
        before.windows.contains_key(opened) ==> keeps_scenes(
            before,
            before.with_window(
                opened,
                BevyPlatformWindow::<K> { latest_snapshot: None, ..before.windows[opened] },
            ),
            id,
        ),
        keeps_scenes(before, replacement.carrying(before.all_generations()), id),
{
}

/// Whether each adapter follows from the one before by a step that keeps the scenes of
/// a context or finishes one.
pub open spec fn scenes_follow<K: HostTypes>(states: Seq<PlatformView<K>>, id: u64) -> bool {
    forall|k: int|
        0 <= k < states.len() - 1 ==> keeps_scenes(#[trigger] states[k], states[k + 1], id)
            || finishes_scene(states[k], states[k + 1], id)
}

/// A later scene of a context has a larger generation than one that was taken before
/// it, also where the device was replaced in between, until the generations are used
/// up.
pub proof fn law_later_scenes_have_larger_generations<K: HostTypes>(
    states: Seq<PlatformView<K>>,
    id: u64,
    i: int,
    j: int,
)
    requires
        scenes_follow(states, id),
        0 <= i < j < states.len(),
        states[i].waiting_scene(id) is Some,
        states[i + 1].waiting_scene(id) is None,
        states[j].waiting_scene(id) is Some,
    ensures
        states[i].last_generation(id) < states[j].last_generation(id),
{
    lemma_generation_after(states, id, i, j);
}

proof fn lemma_generation_after<K: HostTypes>(
    states: Seq<PlatformView<K>>,
    id: u64,
    i: int,
    j: int,
)
    requires
        scenes_follow(states, id),
        0 <= i < j < states.len(),
        states[i + 1].waiting_scene(id) is None,
    ensures
        states[i].last_generation(id) <= states[j].last_generation(id),
        states[j].waiting_scene(id) is Some ==> states[i].last_generation(id)
            < states[j].last_generation(id),
    decreases j - i,
{
    assert(keeps_scenes(states[j - 1], states[j - 1 + 1], id) || finishes_scene(
        states[j - 1],
        states[j - 1 + 1],
        id,
    ));
    if i + 1 < j {
        lemma_generation_after(states, id, i, j - 1);
    }
}

/// While an input callback runs its context is the active one, the callback is out of
/// its slot and the event is noted in its window; other windows and everything else
/// stay.
pub proof fn law_dispatch_touches_one_window<K: HostTypes>(
    platform: PlatformView<K>,
    id: u64,
    input: PlatformInput,
    other: u64,
)
    requires
        platform.windows.contains_key(id),
    ensures
        ({
            let during = platform.in_dispatch(id, input);
            &&& during.active_context == Some(id)
            &&& during.windows.contains_key(id)
            &&& during.windows[id].input is None
            &&& during.windows[id] == (BevyPlatformWindow::<K> {
                input: None,
                ..platform.windows[id].after_input(input)
            })
            &&& other != id ==> (during.windows.contains_key(other)
                <==> platform.windows.contains_key(other)) && (platform.windows.contains_key(other)
                ==> during.windows[other] == platform.windows[other])
            &&& during == (PlatformView::<K> {
                active_context: Some(id),
                windows: during.windows,
                ..platform
            })
        }),
{
}

/// A dispatch that ends gives the context before it back, and the callback to the
/// window it came from where that still exists.
pub proof fn law_dispatch_ends_where_it_began<K: HostTypes>(
    platform: PlatformView<K>,
    id: u64,
    dispatch: Dispatch<K::InputCallback>,
    other: u64,
)
    ensures
        ({
            let after = platform.dispatched(id, dispatch);
            &&& after.active_context == dispatch.previous
            &&& after.windows.contains_key(other) <==> platform.windows.contains_key(other)
            &&& platform.windows.contains_key(other) && (other != id || dispatch.callback is None)
                ==> after.windows[other] == platform.windows[other]
            &&& platform.windows.contains_key(id) && dispatch.callback is Some
                ==> after.windows[id].input == dispatch.callback && after.windows[id] == (
            BevyPlatformWindow::<K> { input: dispatch.callback, ..platform.windows[id] })
        }),
{
}

/// A window knows where its mouse is and which button is held; where there is no window
/// the mouse is at the origin and nothing is held. A viewport starts at the origin of
/// its window and has the size of the viewport.
pub proof fn law_missing_windows_hold_nothing<K: HostTypes>(
    platform: PlatformView<K>,
    id: u64,
    size: Size,
)
    ensures
        platform.windows.contains_key(id) ==> platform.mouse_position(id)
            == platform.windows[id].mouse_position && platform.pressed_button(id)
            == platform.windows[id].pressed_button && platform.last_generation(id)
            == platform.windows[id].scene_generation && platform.waiting_scene(id)
            == platform.windows[id].latest_snapshot,
        !platform.windows.contains_key(id) ==> platform.mouse_position(id).x.units() == 0
            && platform.mouse_position(id).y.units() == 0 && platform.pressed_button(id) is None
            && platform.waiting_scene(id) is None,
        !platform.windows.contains_key(id) && platform.scene_generations.contains_key(id)
            ==> platform.last_generation(id) == platform.scene_generations[id],
        !platform.windows.contains_key(id) && !platform.scene_generations.contains_key(id)
            ==> platform.last_generation(id) == 0,
        BevyPlatform::<K>::viewport_bounds(size).size == size,
        BevyPlatform::<K>::viewport_bounds(size).origin.x.units() == 0,
        BevyPlatform::<K>::viewport_bounds(size).origin.y.units() == 0,
{
}

/// A button that went down in a window is the one held when the pointer moves next.
pub proof fn law_moves_carry_the_held_button<K: HostTypes>(
    platform: PlatformView<K>,
    id: u64,
    press: PlatformInput,
    button: MouseButton,
    local: Point,
    modifiers: Modifiers,
)
    requires
        platform.windows.contains_key(id),
        press matches PlatformInput::MouseDown { button: down, .. } && down == button,
    ensures
        ({
            let during = platform.in_dispatch(id, press);
            let next = RoutedInput::CursorMove {
                position: local,
                viewport_origin: local,
                modifiers,
            }.delivered(during.mouse_position(id), during.pressed_button(id), local);
            next matches PlatformInput::MouseMove { pressed_button, .. } && pressed_button == Some(
                button,
            )
        }),
{
}

/// A window opens under the context that was announced for it and under no other, on
/// the default display, and uses the announcement up; without one it does not open and
/// nothing changes.
pub proof fn law_windows_open_as_announced<K: HostTypes>(
    platform: &mut BevyPlatform<K>,
    handle: K::Handle,
    bounds: Bounds,
    r: Result<u64, OpenError>,
    other: u64,
)
    requires
        call_ensures(BevyPlatform::<K>::open_window, (platform, handle, bounds), r),
    ensures
        r is Ok <==> old(platform)@.pending_context is Some,
        r is Err ==> r == Err::<u64, OpenError>(OpenError::NoPendingContext) && final(platform)@
            == old(platform)@,
        r matches Ok(id) ==> old(platform)@.pending_context == Some(id)
            && final(platform)@.windows.contains_key(id) && final(platform)@.windows[id].handle
            == handle && final(platform)@.windows[id].bounds == bounds
            && final(platform)@.windows[id].display == old(platform)@.display
            && final(platform)@.windows[id].atlas == old(platform)@.atlas
            && final(platform)@.windows[id].scene_generation == old(platform)@.last_generation(id)
            && final(platform)@.windows[id].is_active,
        final(platform)@.pending_context is None,
        Some(other) != old(platform)@.pending_context ==> (final(platform)@.windows.contains_key(
            other,
        ) <==> old(platform)@.windows.contains_key(other)) && (old(platform)@.windows.contains_key(
            other,
        ) ==> final(platform)@.windows[other] == old(platform)@.windows[other]),
{
}

/// Announcing a context succeeds exactly where no other waits to be opened.
pub proof fn law_one_context_opens_at_a_time<K: HostTypes>(
    platform: &mut BevyPlatform<K>,
    id: u64,
    r: Result<(), OpenError>,
)
    requires
        call_ensures(BevyPlatform::<K>::prepare_open_context, (platform, id), r),
    ensures
        r is Ok <==> old(platform)@.pending_context is None,
        r is Err ==> r == Err::<(), OpenError>(OpenError::AlreadyOpening),
        final(platform)@.pending_context == Some(id),
        final(platform)@.windows == old(platform)@.windows,
{
}

/// The cursor is hidden over the window whose callback runs, which tells the host, and
/// over no other; it then counts as hidden.
pub proof fn law_cursor_hides_over_the_running_window<K: HostTypes>(
    platform: &mut BevyPlatform<K>,
    id: u64,
    after: BevyPlatform<K>,
    visible: bool,
    other: u64,
)
    requires
        old(platform)@.active_context == Some(id),
        old(platform)@.windows.contains_key(id),
        call_ensures(BevyPlatform::<K>::hide_cursor_until_mouse_moves, (platform,), ()),
        after@ == final(platform)@,
        call_ensures(BevyPlatform::<K>::is_cursor_visible, (&after,), visible),
    ensures
        !visible,
        final(platform)@.windows[id].output.cursor_visible == Some(false),
        final(platform)@.windows[id].mouse_position == old(platform)@.windows[id].mouse_position,
        other != id && old(platform)@.windows.contains_key(other) ==> final(platform)@.windows[other]
            == old(platform)@.windows[other],
{
}

/// A cursor shape is noted for the window whose callback runs and as the latest of all,
/// and changes no other window.
pub proof fn law_cursor_shape_is_set_for_the_running_window<K: HostTypes>(
    platform: &mut BevyPlatform<K>,
    style: CursorStyle,
    id: u64,
)
    requires
        old(platform)@.windows.contains_key(id),
        call_ensures(BevyPlatform::<K>::set_cursor_style, (platform, style), ()),
    ensures
        final(platform)@.cursor == style,
        final(platform)@.windows.contains_key(id),
        old(platform)@.active_context == Some(id) ==> final(platform)@.windows[id].cursor_style
            == style,
        old(platform)@.active_context != Some(id) ==> final(platform)@.windows[id] == old(
            platform,
        )@.windows[id],
{
}

/// A display keeps the object it was first known by, and the one reported as primary is
/// the primary display from then on.
pub proof fn law_reported_displays_are_known<K: HostTypes>(
    platform: &mut BevyPlatform<K>,
    id: u64,
    fresh: Rc<K::Display>,
    primary: bool,
    r: Rc<K::Display>,
    after: BevyPlatform<K>,
    main: Rc<K::Display>,
)
    requires
        call_ensures(BevyPlatform::<K>::sync_display, (platform, id, fresh, primary), r),
        after@ == final(platform)@,
        call_ensures(BevyPlatform::<K>::primary_display, (&after,), main),
    ensures
        final(platform)@.displays.contains_key(id) && final(platform)@.displays[id] == r,
        old(platform)@.displays.contains_key(id) ==> r == old(platform)@.displays[id],
        !old(platform)@.displays.contains_key(id) ==> r == fresh,
        primary ==> main == r,
        !primary ==> final(platform)@.primary_display_id == old(platform)@.primary_display_id,
{
}

/// Quitting keeps the callbacks that heard of it, before those installed meanwhile, and
/// is asked of the host.
pub proof fn law_quitting_keeps_its_callbacks<K: HostTypes>(
    platform: &mut BevyPlatform<K>,
    callbacks: Vec<K::UnitCallback>,
)
    requires
        call_ensures(BevyPlatform::<K>::finish_quit, (platform, callbacks), ()),
    ensures
        final(platform)@.quit_requested,
        final(platform)@.quit_callbacks.len() == callbacks@.len() + old(
            platform,
        )@.quit_callbacks.len(),
        callbacks@.is_prefix_of(final(platform)@.quit_callbacks),
        final(platform)@.windows == old(platform)@.windows,
{
}

/// Each error says what happened.
pub proof fn law_open_errors_say_what_happened(error: OpenError)
    ensures
        error is AlreadyOpening ==> error.message_spec()
            == "another embedded GPUI window is already opening"@,
        error is NoPendingContext ==> error.message_spec()
            == "GPUI opened a window without a Bevy context binding"@,
{
}

/// An event is delivered to a window with that window's own mouse and button.
pub proof fn law_events_meet_their_own_window<K: HostTypes>(
    platform: BevyPlatform<K>,
    id: u64,
    local: Point,
    modifiers: Modifiers,
    button: MouseButton,
    click_count: usize,
    moved: PlatformInput,
    released: PlatformInput,
)
    requires
        platform@.windows.contains_key(id),
        call_ensures(
            BevyPlatform::<K>::deliver,
            (
                &platform,
                id,
                RoutedInput::CursorMove { position: local, viewport_origin: local, modifiers },
                local,
            ),
            moved,
        ),
        call_ensures(
            BevyPlatform::<K>::deliver,
            (&platform, id, RoutedInput::ButtonUp { button, modifiers, click_count }, local),
            released,
        ),
    ensures
        moved == (PlatformInput::MouseMove {
            position: local,
            pressed_button: platform@.windows[id].pressed_button,
            modifiers,
        }),
        released == (PlatformInput::MouseUp {
            button,
            position: platform@.windows[id].mouse_position,
            modifiers,
            click_count,
        }),
{
}

/// An input event runs the callback of its window alone, and a context without a window
/// gets nothing.
pub proof fn law_input_runs_the_window_callback<K: HostTypes>(
    platform: &mut BevyPlatform<K>,
    id: u64,
    input: PlatformInput,
    r: Option<Dispatch<K::InputCallback>>,
)
    requires
        call_ensures(BevyPlatform::<K>::begin_dispatch, (platform, id, &input), r),
    ensures
        !old(platform)@.windows.contains_key(id) ==> r is None && final(platform)@ == old(
            platform,
        )@,
        old(platform)@.windows.contains_key(id) ==> (r matches Some(dispatch) && dispatch.callback
            == old(platform)@.windows[id].input && dispatch.previous == old(
            platform,
        )@.active_context) && final(platform)@.active_context == Some(id),
{
}

/// Keyboard state and activity are set for their window and for no other; activity
/// leaves bounds and scale.
pub proof fn law_state_is_set_for_its_window<K: HostTypes>(
    platform: &mut BevyPlatform<K>,
    id: u64,
    modifiers: Modifiers,
    capslock: Capslock,
    activated: &mut BevyPlatform<K>,
    active: bool,
    change: Option<HostStateChange<K>>,
    other: u64,
)
    requires
        old(platform)@.windows.contains_key(id),
        call_ensures(
            BevyPlatform::<K>::set_keyboard_state,
            (platform, id, modifiers, capslock),
            (),
        ),
        old(activated)@.windows.contains_key(id),
        call_ensures(
            BevyPlatform::<K>::begin_set_context_active,
            (activated, id, active),
            change,
        ),
    ensures
        final(platform)@.windows[id].modifiers == modifiers,
        final(platform)@.windows[id].capslock == capslock,
        other != id && old(platform)@.windows.contains_key(other) ==> final(platform)@.windows[other]
            == old(platform)@.windows[other],
        final(activated)@.windows[id].is_active == active,
        final(activated)@.windows[id].bounds == old(activated)@.windows[id].bounds,
        final(activated)@.windows[id].scale_factor == old(activated)@.windows[id].scale_factor,
        change is Some,
        old(activated)@.windows[id].is_active == active ==> change->0.active_changed is None,
        old(activated)@.windows[id].is_active != active ==> change->0.active_changed == old(
            activated,
        )@.windows[id].active,
        other != id && old(activated)@.windows.contains_key(other)
            ==> final(activated)@.windows[other] == old(activated)@.windows[other],
{
}

/// Displays are listed by growing id, each known one once; where none is known the
/// default display stands alone.
pub proof fn law_displays_are_listed_by_id<K: HostTypes>(
    platform: BevyPlatform<K>,
    listed: Vec<Rc<K::Display>>,
    a: u64,
    b: u64,
)
    requires
        call_ensures(BevyPlatform::<K>::displays, (&platform,), listed),
    ensures
        platform@.displays.contains_key(a) && platform@.displays.contains_key(b) && a < b
            ==> exists|i: int, j: int|
            0 <= i < j < listed@.len() && #[trigger] listed@[i] == platform@.displays[a]
                && #[trigger] listed@[j] == platform@.displays[b],
        platform@.displays.contains_key(a) ==> listed@.len() == platform@.displays.dom().len(),
        platform@.displays.dom() == Set::<u64>::empty() ==> listed@.len() == 1 && listed@[0]
            == platform@.display,
{
    if platform@.displays.contains_key(a) {
        let known = platform@.displays.dom();
        assert(known.contains(a));
        assert(known != Set::<u64>::empty());
        let pick = |id: u64| platform@.displays[id];
        let ids = choose|ids: Seq<u64>| #[trigger]
            ascending(ids) && ids.to_set() == known && listed@ == ids.map_values(pick);
        assert(ids.no_duplicates());
        ids.unique_seq_to_set();
        if platform@.displays.contains_key(b) && a < b {
            assert(ids.to_set().contains(a) && ids.to_set().contains(b));
            let i = choose|i: int| 0 <= i < ids.len() && ids[i] == a;
            let j = choose|j: int| 0 <= j < ids.len() && ids[j] == b;
            if j < i {
                assert(ids[j] < ids[i]);
            }
            assert(listed@[i] == pick(a) && listed@[j] == pick(b));
        }
    }
}

/// Asking a window for a frame makes its context active while its callback runs and
/// leaves everything as it was once the callback is back.
pub proof fn law_frame_request_leaves_no_trace<K: HostTypes>(
    platform: &mut BevyPlatform<K>,
    id: u64,
    begun: Option<Dispatch<K::FrameCallback>>,
    dispatch: Dispatch<K::FrameCallback>,
    later: &mut BevyPlatform<K>,
)
    requires
        call_ensures(BevyPlatform::<K>::begin_request_frame, (platform, id), begun),
        begun == Some(dispatch),
        old(later)@ == final(platform)@,
        call_ensures(BevyPlatform::<K>::finish_request_frame, (later, id, dispatch), ()),
    ensures
        old(platform)@.windows.contains_key(id),
        final(platform)@.active_context == Some(id),
        dispatch.callback == old(platform)@.windows[id].request_frame,
        final(later)@ == old(platform)@,
{
    let windows = old(platform)@.windows;
    assert(windows.contains_key(id));
    let window = windows[id];
    assert((BevyPlatformWindow::<K> {
        request_frame: window.request_frame,
        ..BevyPlatformWindow::<K> { request_frame: None, ..window }
    }) == window);
    assert(final(later)@.windows =~= windows);
}

} // verus!
