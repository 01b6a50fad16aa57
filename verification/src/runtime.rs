//! The embedded runtime: which roots exist, where they are shown, and who has
//! the keyboard.
use crate::geometry::{Point, Rect};
use crate::host::HostTypes;
use crate::ids::{lists, map_ids};
use crate::input::HostMouseButton;
use crate::keys::{ButtonState, Capslock, Modifiers};
use crate::platform::{BevyPlatform, OpenError, PlatformView};
use crate::scalar::{pixel_units, Scalar, FOUR_PIXELS_BITS};
use crate::window::BevyPlatformWindow;
use std::collections::HashMap;
use vstd::prelude::*;

verus! {

broadcast use vstd::std_specs::hash::group_hash_axioms;

/// Longest time between two presses of one multiple click, in nanoseconds.
pub const CLICK_INTERVAL: u64 = 500_000_000;

/// Where a root is shown.
#[derive(Clone, Copy, Debug, PartialEq, Eq, Structural)]
pub struct ContextBinding {
    /// The host window, if it is shown in one.
    pub window: Option<u64>,
    /// The part of that window it covers.
    pub viewport: Rect,
    /// Its rank: higher ranks are in front.
    pub order: i64,
}

/// The latest press of a button in a window.
#[derive(Clone, Copy, Debug, PartialEq, Eq, Structural)]
pub struct ClickState {
    /// When it happened, in nanoseconds.
    pub at: u64,
    /// Where it happened.
    pub position: Point,
    /// How many presses it follows, itself included.
    pub count: usize,
}

/// The running embedded application.
pub struct GpuiRuntime<K: HostTypes> {
    /// The application's windows by context id.
    pub windows: HashMap<u64, K::Handle>,
    /// Where each root is shown, by context id.
    pub contexts: HashMap<u64, ContextBinding>,
    /// The roots shown in each host window, the front one last.
    pub window_contexts: HashMap<u64, Vec<u64>>,
    /// The pointer position in each host window.
    pub cursor_positions: HashMap<u64, Point>,
    /// The root that was clicked last in each host window.
    pub focused_contexts: HashMap<u64, u64>,
    /// The modifiers held in each host window.
    pub modifiers: HashMap<u64, Modifiers>,
    /// The caps-lock state in each host window.
    pub capslock: HashMap<u64, Capslock>,
    /// The latest presses, by [`click_key`].
    pub clicks: HashMap<u128, ClickState>,
    /// Whether the host application is in the foreground.
    pub application_active: bool,
}

/// The running embedded application as plain values.
#[verifier::ext_equal]
#[verifier::reject_recursive_types(K)]
pub struct RuntimeView<K: HostTypes> {
    pub windows: Map<u64, K::Handle>,
    pub contexts: Map<u64, ContextBinding>,
    pub window_contexts: Map<u64, Seq<u64>>,
    pub cursor_positions: Map<u64, Point>,
    pub focused_contexts: Map<u64, u64>,
    pub modifiers: Map<u64, Modifiers>,
    pub capslock: Map<u64, Capslock>,
    pub clicks: Map<u128, ClickState>,
    pub application_active: bool,
}

/// The number of a button, different for different buttons.
pub open spec fn button_code(button: HostMouseButton) -> nat {
    match button {
        HostMouseButton::Left => 0,
        HostMouseButton::Right => 1,
        HostMouseButton::Middle => 2,
        HostMouseButton::Back => 3,
        HostMouseButton::Forward => 4,
        HostMouseButton::Other(n) => 5 + n as nat,
    }
}

/// The key under which presses of a button in a window are kept.
pub open spec fn click_key_spec(window: u64, button: HostMouseButton) -> u128 {
    (window as nat * 0x1_0000_0000 + button_code(button)) as u128
}

/// The key under which presses of a button in a window are kept.
pub fn click_key(window: u64, button: HostMouseButton) -> (r: u128)
    ensures
        r == click_key_spec(window, button),
{
    let code: u32 = match button {
        HostMouseButton::Left => 0,
        HostMouseButton::Right => 1,
        HostMouseButton::Middle => 2,
        HostMouseButton::Back => 3,
        HostMouseButton::Forward => 4,
        HostMouseButton::Other(n) => 5 + n as u32,
    };
    (window as u128) * 0x1_0000_0000 + code as u128
}

/// Presses of different buttons or in different windows are kept apart.
pub proof fn law_click_keys_are_distinct(
    window: u64,
    button: HostMouseButton,
    other_window: u64,
    other_button: HostMouseButton,
)
    ensures
        click_key_spec(window, button) == click_key_spec(other_window, other_button) ==> window
            == other_window && button == other_button,
{
    assert(button_code(button) < 0x1_0000_0000);
    assert(button_code(other_button) < 0x1_0000_0000);
}

/// The focus map without the entries that point at a root.
pub open spec fn unfocused(focused: Map<u64, u64>, id: u64) -> Map<u64, u64> {
    Map::new(
        |window: u64| focused.contains_key(window) && focused[window] != id,
        |window: u64| focused[window],
    )
}

impl<K: HostTypes> View for GpuiRuntime<K> {
    type V = RuntimeView<K>;

    open spec fn view(&self) -> RuntimeView<K> {
        RuntimeView {
            windows: self.windows@,
            contexts: self.contexts@,
            window_contexts: self.window_contexts@.map_values(|ids: Vec<u64>| ids@),
            cursor_positions: self.cursor_positions@,
            focused_contexts: self.focused_contexts@,
            modifiers: self.modifiers@,
            capslock: self.capslock@,
            clicks: self.clicks@,
            application_active: self.application_active,
        }
    }
}

impl<K: HostTypes> RuntimeView<K> {
    /// A runtime without roots, in the foreground.
    pub open spec fn started() -> RuntimeView<K> {
        RuntimeView {
            windows: Map::empty(),
            contexts: Map::empty(),
            window_contexts: Map::empty(),
            cursor_positions: Map::empty(),
            focused_contexts: Map::empty(),
            modifiers: Map::empty(),
            capslock: Map::empty(),
            clicks: Map::empty(),
            application_active: true,
        }
    }

    /// The roots shown in a window, the front one last.
    pub open spec fn mapped(self, window: u64) -> Seq<u64> {
        if self.window_contexts.contains_key(window) {
            self.window_contexts[window]
        } else {
            Seq::empty()
        }
    }

    /// The given position, or else the known pointer position in a window.
    pub open spec fn pointer_at(self, window: u64, position: Option<Point>) -> Option<Point> {
        match position {
            Some(point) => Some(point),
            None => if self.cursor_positions.contains_key(window) {
                Some(self.cursor_positions[window])
            } else {
                None
            },
        }
    }

    /// Whether a root is under a position; every root is where the position is
    /// not known.
    pub open spec fn covers(self, id: u64, position: Option<Point>) -> bool {
        match position {
            None => true,
            Some(point) => self.contexts.contains_key(id)
                && self.contexts[id].viewport.contains_spec(point),
        }
    }

    /// The roots of a window that are under a position, the front one last.
    pub open spec fn ids_at(self, window: u64, position: Option<Point>) -> Seq<u64> {
        self.mapped(window).filter(
            |id: u64| self.covers(id, self.pointer_at(window, position)),
        )
    }

    /// Whether the root clicked last in a window is still shown there.
    pub open spec fn focus_holds(self, window: u64) -> bool {
        &&& self.focused_contexts.contains_key(window)
        &&& self.contexts.contains_key(self.focused_contexts[window])
        &&& self.contexts[self.focused_contexts[window]].window == Some(window)
    }

    /// Whether a root is shown in a window: it is bound to it, or among the roots the
    /// window shows.
    pub open spec fn shows(self, window: u64, id: u64) -> bool {
        ||| self.mapped(window).contains(id)
        ||| self.contexts.contains_key(id) && self.contexts[id].window == Some(window)
    }

    /// Whether the root clicked last in a window is bound to a window, that one or
    /// another it has moved to.
    pub open spec fn click_counts(self, window: u64) -> bool {
        &&& self.focused_contexts.contains_key(window)
        &&& self.contexts.contains_key(self.focused_contexts[window])
        &&& self.contexts[self.focused_contexts[window]].window is Some
    }

    /// The windows where the root clicked last is bound to some window.
    pub open spec fn clicked_windows(self) -> Set<u64> {
        self.focused_contexts.dom().filter(|window: u64| self.click_counts(window))
    }

    /// The roots that receive a window's keyboard: the root clicked last while it is
    /// shown there, or else the front one.
    pub open spec fn keyboard_ids(self, window: u64) -> Seq<u64> {
        if self.focus_holds(window) {
            seq![self.focused_contexts[window]]
        } else if self.mapped(window).len() > 0 {
            seq![self.mapped(window).last()]
        } else {
            Seq::empty()
        }
    }

    /// The modifiers held in a window.
    pub open spec fn modifiers_in(self, window: u64) -> Modifiers {
        if self.modifiers.contains_key(window) {
            self.modifiers[window]
        } else {
            Modifiers::none_spec()
        }
    }

    /// The caps-lock state in a window.
    pub open spec fn capslock_in(self, window: u64) -> Capslock {
        if self.capslock.contains_key(window) {
            self.capslock[window]
        } else {
            Capslock::off_spec()
        }
    }

    /// The pointer position in a window, or the origin.
    pub open spec fn cursor_in(self, window: u64) -> Point {
        if self.cursor_positions.contains_key(window) {
            self.cursor_positions[window]
        } else {
            Point::origin_spec()
        }
    }

    /// The runtime once a root's window was opened.
    pub open spec fn opened(self, id: u64, handle: K::Handle) -> RuntimeView<K> {
        RuntimeView {
            windows: self.windows.insert(id, handle),
            contexts: self.contexts.insert(
                id,
                ContextBinding { window: None, viewport: Rect::empty_spec(), order: 0 },
            ),
            ..self
        }
    }

    /// The runtime while a root's window is being closed.
    pub open spec fn closing(self, id: u64) -> RuntimeView<K> {
        RuntimeView { windows: self.windows.remove(id), ..self }
    }

    /// The runtime once a root was forgotten.
    pub open spec fn forgotten(self, id: u64) -> RuntimeView<K> {
        RuntimeView {
            contexts: self.contexts.remove(id),
            focused_contexts: unfocused(self.focused_contexts, id),
            ..self
        }
    }

    /// The runtime once a root was closed and forgotten.
    pub open spec fn closed(self, id: u64) -> RuntimeView<K> {
        self.closing(id).forgotten(id)
    }

    /// Whether ids are those that receive a pinch: the roots clicked last in any
    /// window, as long as they are bound to some window, or, where there are none, the
    /// front root of one window. Windows are looked at in no particular order.
    pub open spec fn are_pinch_targets(self, ids: Seq<u64>) -> bool {
        if self.clicked_windows() != Set::<u64>::empty() {
            exists|windows: Seq<u64>| #[trigger]
                lists(windows, self.clicked_windows()) && ids == windows.map_values(
                    |window: u64| self.focused_contexts[window],
                )
        } else {
            ||| ids.len() == 0 && forall|window: u64| (#[trigger] self.mapped(window)).len() == 0
            ||| exists|window: u64|
                (#[trigger] self.mapped(window)).len() > 0 && ids == seq![
                    self.mapped(window).last(),
                ]
        }
    }

    /// Whether every window of the application belongs to a root.
    pub open spec fn windows_have_contexts(self) -> bool {
        self.windows.dom().subset_of(self.contexts.dom())
    }

    /// The count of a press or release of a button in a window.
    ///
    /// A press continues a multiple click where the one before it is recent and
    /// near, and a release reports the press it belongs to.
    pub open spec fn click_count(
        self,
        window: u64,
        button: HostMouseButton,
        state: ButtonState,
        now: u64,
        distance: Scalar,
    ) -> usize {
        let key = click_key_spec(window, button);
        match state {
            ButtonState::Released => if self.clicks.contains_key(key) {
                self.clicks[key].count
            } else {
                1
            },
            ButtonState::Pressed => if self.clicks.contains_key(key) && now - self.clicks[key].at
                <= CLICK_INTERVAL && distance.le_spec(Scalar { bits: FOUR_PIXELS_BITS }) {
                if self.clicks[key].count == usize::MAX {
                    usize::MAX
                } else {
                    (self.clicks[key].count + 1) as usize
                }
            } else {
                1
            },
        }
    }

    /// The runtime once a press or release was counted.
    pub open spec fn clicked(
        self,
        window: u64,
        button: HostMouseButton,
        state: ButtonState,
        now: u64,
        distance: Scalar,
    ) -> RuntimeView<K> {
        match state {
            ButtonState::Released => self,
            ButtonState::Pressed => RuntimeView {
                clicks: self.clicks.insert(
                    click_key_spec(window, button),
                    ClickState {
                        at: now,
                        position: self.cursor_in(window),
                        count: self.click_count(window, button, state, now, distance),
                    },
                ),
                ..self
            },
        }
    }
}

/// How opening a root's window went.
pub enum OpenOutcome<H> {
    /// The application could not be reached.
    Unreachable,
    /// The application refused.
    Refused,
    /// The window is open.
    Opened(H),
}

impl<K: HostTypes> GpuiRuntime<K> {
    /// A runtime without roots, in the foreground.
    pub fn new() -> (r: Self)
        ensures
            r@ == RuntimeView::<K>::started(),
    {
        let r = GpuiRuntime {
            windows: HashMap::new(),
            contexts: HashMap::new(),
            window_contexts: HashMap::new(),
            cursor_positions: HashMap::new(),
            focused_contexts: HashMap::new(),
            modifiers: HashMap::new(),
            capslock: HashMap::new(),
            clicks: HashMap::new(),
            application_active: true,
        };
        proof {
            assert(r@.window_contexts =~= Map::<u64, Seq<u64>>::empty());
        }
        r
    }

    /// Announces that a root's window is about to be opened.
    pub fn begin_open_root(&self, platform: &mut BevyPlatform<K>, id: u64) -> (r: Result<
        (),
        OpenError,
    >)
        ensures
            r == (if old(platform)@.pending_context is Some {
                Err::<(), OpenError>(OpenError::AlreadyOpening)
            } else {
                Ok(())
            }),
            final(platform)@ == old(platform)@.prepared(id),
    {
        platform.prepare_open_context(id)
    }

    /// Takes over a root's window, or withdraws its announcement where the
    /// application refused. Reports whether the root exists now.
    pub fn finish_open_root(
        &mut self,
        platform: &mut BevyPlatform<K>,
        id: u64,
        outcome: OpenOutcome<K::Handle>,
    ) -> (r: bool)
        ensures
            r == (outcome is Opened),
            match outcome {
                OpenOutcome::Unreachable => final(self)@ == old(self)@ && final(platform)@ == old(
                    platform,
                )@,
                OpenOutcome::Refused => final(self)@ == old(self)@ && final(platform)@ == old(
                    platform,
                )@.cancelled(id),
                OpenOutcome::Opened(handle) => final(self)@ == old(self)@.opened(id, handle)
                    && final(platform)@ == old(platform)@,
            },
    {
        match outcome {
            OpenOutcome::Unreachable => false,
            OpenOutcome::Refused => {
                platform.cancel_open_context(id);
                false
            },
            OpenOutcome::Opened(handle) => {
                self.windows.insert(id, handle);
                self.contexts.insert(
                    id,
                    ContextBinding { window: None, viewport: Rect::empty(), order: 0 },
                );
                true
            },
        }
    }

    /// Takes out the window of a root, for the application to close it.
    pub fn begin_close_context(&mut self, id: u64) -> (r: Option<K::Handle>)
        ensures
            r == (if old(self)@.windows.contains_key(id) {
                Some(old(self)@.windows[id])
            } else {
                None
            }),
            final(self)@ == old(self)@.closing(id),
    {
        let window = self.windows.remove(&id);
        proof {
            if window is None {
                assert(old(self)@.windows.remove(id) =~= old(self)@.windows);
            }
        }
        window
    }

    /// Forgets a root whose window was closed, and hands out what the adapter
    /// kept for it.
    pub fn finish_close_context(&mut self, platform: &mut BevyPlatform<K>, id: u64) -> (r: Option<
        BevyPlatformWindow<K>,
    >)
        ensures
            r == (if old(platform)@.windows.contains_key(id) {
                Some(old(platform)@.windows[id])
            } else {
                None
            }),
            final(platform)@ == (PlatformView::<K> {
                windows: old(platform)@.windows.remove(id),
                ..old(platform)@
            }),
            final(self)@ == old(self)@.forgotten(id),
    {
        let window = platform.remove_context(id);
        self.contexts.remove(&id);
        self.unfocus(id);
        window
    }

    /// Drops the focus on a root in every window.
    fn unfocus(&mut self, id: u64)
        ensures
            final(self)@ == (RuntimeView::<K> {
                focused_contexts: unfocused(old(self)@.focused_contexts, id),
                ..old(self)@
            }),
    {
        let ids = map_ids(&self.focused_contexts);
        let ghost before = self.focused_contexts@;
        let ghost start = self@;
        let mut index: usize = 0;
        while index < ids.len()
            invariant
                index <= ids@.len(),
                lists(ids@, before.dom()),
                self@ == (RuntimeView::<K> {
                    focused_contexts: self.focused_contexts@,
                    ..start
                }),
                forall|window: u64| #[trigger]
                    self.focused_contexts@.dom().contains(window) ==> before.contains_key(window)
                        && self.focused_contexts@[window] == before[window],
                forall|window: u64| #[trigger]
                    before.dom().contains(window) && before[window] != id
                        ==> self.focused_contexts@.contains_key(window),
                forall|i: int|
                    0 <= i < index && before[#[trigger] ids@[i]] == id
                        ==> !self.focused_contexts@.contains_key(ids@[i]),
            decreases ids@.len() - index,
        {
            let window: u64 = ids[index];
            proof {
                assert(ids@.to_set().contains(window));
            }
            let stale: bool = match self.focused_contexts.get(&window) {
                Some(focused) => *focused == id,
                None => false,
            };
            if stale {
                self.focused_contexts.remove(&window);
            }
            index = index + 1;
        }
        proof {
            let after = unfocused(before, id);
            assert forall|window: u64| after.contains_key(window)
                <==> self.focused_contexts@.contains_key(window) by {
                if before.contains_key(window) {
                    assert(ids@.to_set().contains(window));
                    let i = choose|i: int| 0 <= i < ids@.len() && ids@[i] == window;
                    assert(ids@[i] == window);
                }
            }
            assert(self.focused_contexts@ =~= after);
        }
    }

    /// The roots shown in a window, the front one last.
    pub fn mapped(&self, window: u64) -> (r: Vec<u64>)
        ensures
            r@ == self@.mapped(window),
    {
        match self.window_contexts.get(&window) {
            Some(ids) => ids.clone(),
            None => Vec::new(),
        }
    }

    /// The roots of a window that are under a position, the front one last. Where
    /// no position is given the known pointer position counts, and without one
    /// every root of the window does.
    pub fn context_ids_at(&self, window: u64, position: Option<Point>) -> (r: Vec<u64>)
        ensures
            r@ == self@.ids_at(window, position),
    {
        let position: Option<Point> = match position {
            Some(point) => Some(point),
            None => match self.cursor_positions.get(&window) {
                Some(point) => Some(*point),
                None => None,
            },
        };
        let ids = self.mapped(window);
        let ghost keep = |id: u64| self@.covers(id, position);
        let mut out: Vec<u64> = Vec::new();
        let mut index: usize = 0;
        proof {
            reveal(Seq::filter);
            assert(ids@.take(0).filter(keep) =~= Seq::<u64>::empty());
        }
        while index < ids.len()
            invariant
                index <= ids@.len(),
                keep == (|id: u64| self@.covers(id, position)),
                out@ == ids@.take(index as int).filter(keep),
            decreases ids@.len() - index,
        {
            let id: u64 = ids[index];
            proof {
                reveal(Seq::filter);
                let next = ids@.take(index + 1);
                assert(next.drop_last() =~= ids@.take(index as int));
                assert(next.last() == id);
            }
            let shown: bool = match position {
                None => true,
                Some(point) => match self.contexts.get(&id) {
                    Some(binding) => binding.viewport.contains(point),
                    None => false,
                },
            };
            if shown {
                out.push(id);
            }
            index = index + 1;
        }
        proof {
            assert(ids@.take(ids@.len() as int) =~= ids@);
        }
        out
    }

    /// The root clicked last in a window, where it is still shown there.
    fn held_focus(&self, window: u64) -> (r: Option<u64>)
        ensures
            r == (if self@.focus_holds(window) {
                Some(self@.focused_contexts[window])
            } else {
                None
            }),
    {
        if let Some(id) = self.focused_contexts.get(&window) {
            if let Some(binding) = self.contexts.get(id) {
                if let Some(bound) = binding.window {
                    if bound == window {
                        return Some(*id);
                    }
                }
            }
        }
        None
    }

    /// The roots that receive a window's keyboard: the root clicked last while it is
    /// shown there, or else the front one.
    pub fn keyboard_context_ids(&self, window: u64) -> (r: Vec<u64>)
        ensures
            r@ == self@.keyboard_ids(window),
    {
        let mut out: Vec<u64> = Vec::new();
        if let Some(id) = self.held_focus(window) {
            out.push(id);
            return out;
        }
        let ids = self.mapped(window);
        if ids.len() > 0 {
            out.push(ids[ids.len() - 1]);
        }
        out
    }

    /// The modifiers held in a window.
    pub fn modifiers_in(&self, window: u64) -> (r: Modifiers)
        ensures
            r == self@.modifiers_in(window),
    {
        match self.modifiers.get(&window) {
            Some(modifiers) => *modifiers,
            None => Modifiers::default(),
        }
    }

    /// The caps-lock state in a window.
    pub fn capslock_in(&self, window: u64) -> (r: Capslock)
        ensures
            r == self@.capslock_in(window),
    {
        match self.capslock.get(&window) {
            Some(capslock) => *capslock,
            None => Capslock::default(),
        }
    }

    /// The pointer position in a window, or the origin.
    pub fn cursor_in(&self, window: u64) -> (r: Point)
        ensures
            r == self@.cursor_in(window),
    {
        match self.cursor_positions.get(&window) {
            Some(position) => *position,
            None => Point::origin(),
        }
    }

    /// Where a button was pressed last in a window.
    pub fn last_click(&self, window: u64, button: HostMouseButton) -> (r: Option<Point>)
        ensures
            r == (if self@.clicks.contains_key(click_key_spec(window, button)) {
                Some(self@.clicks[click_key_spec(window, button)].position)
            } else {
                None
            }),
    {
        match self.clicks.get(&click_key(window, button)) {
            Some(click) => Some(click.position),
            None => None,
        }
    }

    /// Counts a press or release of a button in a window.
    ///
    /// `now` is the time in nanoseconds and `distance` the way from
    /// [`GpuiRuntime::last_click`] to the pointer.
    pub fn click_count(
        &mut self,
        window: u64,
        button: HostMouseButton,
        state: ButtonState,
        now: u64,
        distance: Scalar,
    ) -> (r: usize)
        ensures
            r == old(self)@.click_count(window, button, state, now, distance),
            final(self)@ == old(self)@.clicked(window, button, state, now, distance),
    {
        let key: u128 = click_key(window, button);
        let last: Option<ClickState> = match self.clicks.get(&key) {
            Some(click) => Some(*click),
            None => None,
        };
        match state {
            ButtonState::Released => match last {
                Some(click) => click.count,
                None => 1,
            },
            ButtonState::Pressed => {
                let count: usize = match last {
                    Some(click) => {
                        let recent: bool = now < click.at || now - click.at <= CLICK_INTERVAL;
                        if recent && distance.le(Scalar { bits: FOUR_PIXELS_BITS }) {
                            click.count.saturating_add(1)
                        } else {
                            1
                        }
                    },
                    None => 1,
                };
                let position = self.cursor_in(window);
                self.clicks.insert(key, ClickState { at: now, position, count });
                count
            },
        }
    }

    /// The context ids of all roots, in no particular order.
    pub fn context_ids(&self) -> (r: Vec<u64>)
        ensures
            lists(r@, self@.contexts.dom()),
    {
        map_ids(&self.contexts)
    }

    /// Whether the root clicked last in a window is bound to some window.
    fn click_counts(&self, window: u64) -> (r: bool)
        ensures
            r == self@.click_counts(window),
    {
        match self.focused_contexts.get(&window) {
            Some(id) => match self.contexts.get(id) {
                Some(binding) => binding.window.is_some(),
                None => false,
            },
            None => false,
        }
    }

    /// The windows where the root clicked last is bound to some window, in no
    /// particular order.
    fn clicked_windows(&self) -> (r: Vec<u64>)
        ensures
            lists(r@, self@.clicked_windows()),
    {
        let windows = map_ids(&self.focused_contexts);
        let ghost kept = self@.clicked_windows();
        let mut out: Vec<u64> = Vec::new();
        let mut index: usize = 0;
        while index < windows.len()
            invariant
                index <= windows@.len(),
                lists(windows@, self@.focused_contexts.dom()),
                kept == self@.clicked_windows(),
                out@.no_duplicates(),
                forall|k: u64| #[trigger]
                    out@.contains(k) <==> kept.contains(k) && windows@.take(index as int).contains(
                        k,
                    ),
            decreases windows@.len() - index,
        {
            let window: u64 = windows[index];
            let ghost before = out@;
            proof {
                let done = windows@.take(index as int);
                let next = windows@.take(index + 1);
                assert(next =~= done.push(window));
                assert(windows@.to_set().contains(window));
                if done.contains(window) {
                    let i = choose|i: int| 0 <= i < done.len() && done[i] == window;
                    assert(windows@[i] == windows@[index as int]);
                }
                assert forall|k: u64| next.contains(k) <==> done.contains(k) || k == window by {
                    if done.contains(k) {
                        let i = choose|i: int| 0 <= i < done.len() && done[i] == k;
                        assert(next[i] == k);
                    }
                    assert(next[index as int] == window);
                    if next.contains(k) {
                        let i = choose|i: int| 0 <= i < next.len() && next[i] == k;
                        if i < index {
                            assert(done[i] == k);
                        }
                    }
                }
                assert(!before.contains(window));
            }
            if self.click_counts(window) {
                out.push(window);
                proof {
                    assert forall|k: u64| #[trigger] out@.contains(k) <==> before.contains(k) || k
                        == window by {
                        if before.contains(k) {
                            let i = choose|i: int| 0 <= i < before.len() && before[i] == k;
                            assert(out@[i] == k);
                        }
                        assert(out@[before.len() as int] == window);
                        if out@.contains(k) {
                            let i = choose|i: int| 0 <= i < out@.len() && out@[i] == k;
                            if i < before.len() {
                                assert(before[i] == k);
                            }
                        }
                    }
                }
            }
            index = index + 1;
        }
        proof {
            assert(windows@.take(windows@.len() as int) =~= windows@);
            assert forall|k: u64| out@.to_set().contains(k) <==> kept.contains(k) by {
                assert(out@.contains(k) <==> kept.contains(k) && windows@.contains(k));
                if kept.contains(k) {
                    assert(windows@.to_set().contains(k));
                }
            }
            assert(out@.to_set() =~= kept);
        }
        out
    }

    /// The roots clicked last in any window, as long as they are bound to some
    /// window, or, where there are none, the front root of some window. Windows are
    /// looked at in no particular order.
    pub fn pinch_targets(&self) -> (r: Vec<u64>)
        ensures
            self@.are_pinch_targets(r@),
    {
        let windows = self.clicked_windows();
        let mut out: Vec<u64> = Vec::new();
        if windows.len() > 0 {
            let ghost pick = |window: u64| self@.focused_contexts[window];
            let mut index: usize = 0;
            while index < windows.len()
                invariant
                    index <= windows@.len(),
                    lists(windows@, self@.clicked_windows()),
                    pick == (|window: u64| self@.focused_contexts[window]),
                    out@ == windows@.take(index as int).map_values(pick),
                decreases windows@.len() - index,
            {
                let window: u64 = windows[index];
                proof {
                    assert(windows@.to_set().contains(window));
                    assert(windows@.take(index + 1).map_values(pick) =~= windows@.take(
                        index as int,
                    ).map_values(pick).push(pick(window)));
                }
                if let Some(id) = self.focused_contexts.get(&window) {
                    out.push(*id);
                }
                index = index + 1;
            }
            proof {
                assert(windows@.take(windows@.len() as int) =~= windows@);
                assert(windows@.to_set().contains(windows@[0]));
                assert(lists(windows@, self@.clicked_windows()));
            }
            return out;
        }
        proof {
            assert(self@.clicked_windows() =~= Set::<u64>::empty());
        }
        let shown = map_ids(&self.window_contexts);
        let mut index: usize = 0;
        while index < shown.len()
            invariant
                index <= shown@.len(),
                lists(shown@, self.window_contexts@.dom()),
                out@ == Seq::<u64>::empty(),
                self@.clicked_windows() == Set::<u64>::empty(),
                forall|i: int| 0 <= i < index ==> self@.mapped(#[trigger] shown@[i]).len() == 0,
            decreases shown@.len() - index,
        {
            let window: u64 = shown[index];
            let ids = self.mapped(window);
            if ids.len() > 0 {
                out.push(ids[ids.len() - 1]);
                assert(self@.mapped(window).len() > 0);
                return out;
            }
            index = index + 1;
        }
        proof {
            assert forall|window: u64| #[trigger] self@.mapped(window).len() == 0 by {
                if self@.window_contexts.contains_key(window) {
                    assert(shown@.to_set().contains(window));
                    let i = choose|i: int| 0 <= i < shown@.len() && shown@[i] == window;
                    assert(self@.mapped(shown@[i]).len() == 0);
                }
            }
        }
        out
    }
}

/// Closing a root that was just opened leaves a runtime that did not know it as it
/// was.
pub proof fn law_close_undoes_open<K: HostTypes>(runtime: RuntimeView<K>, id: u64, handle: K::Handle)
    requires
        !runtime.windows.contains_key(id),
        !runtime.contexts.contains_key(id),
        forall|window: u64| #[trigger]
            runtime.focused_contexts.contains_key(window) ==> runtime.focused_contexts[window]
                != id,
    ensures
        runtime.opened(id, handle).closed(id) == runtime,
{
    let after = runtime.opened(id, handle).closed(id);
    assert(after.windows =~= runtime.windows);
    assert(after.contexts =~= runtime.contexts);
    assert(after.focused_contexts =~= runtime.focused_contexts);
}

/// Opening and closing roots keeps every window of the application tied to a root.
pub proof fn law_windows_keep_contexts<K: HostTypes>(
    runtime: RuntimeView<K>,
    id: u64,
    handle: K::Handle,
)
    requires
        runtime.windows_have_contexts(),
    ensures
        runtime.opened(id, handle).windows_have_contexts(),
        runtime.closed(id).windows_have_contexts(),
        runtime.closing(id).windows_have_contexts(),
{
}

/// A closed root has no window, no place and no focus left.
pub proof fn law_closed_root_is_gone<K: HostTypes>(runtime: RuntimeView<K>, id: u64)
    ensures
        !runtime.closed(id).windows.contains_key(id),
        !runtime.closed(id).contexts.contains_key(id),
        forall|window: u64| #[trigger]
            runtime.closed(id).focused_contexts.contains_key(window)
                ==> runtime.closed(id).focused_contexts[window] != id,
        forall|other: u64|
            other != id && #[trigger] runtime.contexts.contains_key(other) ==> runtime.closed(
                id,
            ).contexts.contains_key(other) && runtime.closed(id).contexts[other]
                == runtime.contexts[other],
{
}

/// A window's keyboard goes to at most one root, and to none only where the window
/// shows none and none was clicked there.
pub proof fn law_keyboard_has_one_target<K: HostTypes>(runtime: RuntimeView<K>, window: u64)
    ensures
        runtime.keyboard_ids(window).len() <= 1,
        runtime.keyboard_ids(window).len() == 0 <==> runtime.mapped(window).len() == 0
            && !runtime.focus_holds(window),
{
}

/// The root that receives a window's keyboard is shown in that window.
pub proof fn law_keyboard_target_is_shown<K: HostTypes>(
    runtime: RuntimeView<K>,
    window: u64,
    id: u64,
)
    requires
        runtime.keyboard_ids(window).contains(id),
    ensures
        runtime.shows(window, id),
{
    assert(runtime.keyboard_ids(window)[0] == id);
    if runtime.mapped(window).len() > 0 {
        assert(runtime.mapped(window).contains(runtime.mapped(window).last()));
    }
}

/// Where no root clicked in a window is still shown there, the window's keyboard
/// goes to its front root, whichever roots have a text field.
pub proof fn law_unfocused_keyboard_goes_to_front<K: HostTypes>(
    runtime: RuntimeView<K>,
    window: u64,
)
    requires
        !runtime.focus_holds(window),
        runtime.mapped(window).len() > 0,
    ensures
        runtime.keyboard_ids(window) == seq![runtime.mapped(window).last()],
{
}

/// A pinch reaches only roots that are shown in some window.
pub proof fn law_pinch_targets_are_shown<K: HostTypes>(
    runtime: RuntimeView<K>,
    ids: Seq<u64>,
    id: u64,
)
    requires
        runtime.are_pinch_targets(ids),
        ids.contains(id),
    ensures
        exists|window: u64| #[trigger] runtime.shows(window, id),
{
    let i = choose|i: int| 0 <= i < ids.len() && ids[i] == id;
    if runtime.clicked_windows() != Set::<u64>::empty() {
        let pick = |window: u64| runtime.focused_contexts[window];
        let windows = choose|windows: Seq<u64>| #[trigger]
            lists(windows, runtime.clicked_windows()) && ids == windows.map_values(pick);
        let window = windows[i];
        assert(windows.to_set().contains(window));
        assert(id == pick(window));
        assert(runtime.click_counts(window));
        assert(runtime.shows(runtime.contexts[id].window->0, id));
    } else {
        let window = choose|window: u64|
            (#[trigger] runtime.mapped(window)).len() > 0 && ids == seq![
                runtime.mapped(window).last(),
            ];
        assert(id == ids[0]);
        assert(runtime.mapped(window).contains(runtime.mapped(window).last()));
        assert(runtime.shows(window, id));
    }
}

/// Presses in quick succession at one place count up by one, and a release reports
/// the count of its press.
pub proof fn law_quick_presses_count_up<K: HostTypes>(
    runtime: RuntimeView<K>,
    window: u64,
    button: HostMouseButton,
    first: u64,
    second: u64,
    release: u64,
    distance: Scalar,
    near: Scalar,
)
    requires
        first <= second,
        second - first <= CLICK_INTERVAL,
        near.le_spec(Scalar { bits: FOUR_PIXELS_BITS }),
        runtime.click_count(window, button, ButtonState::Pressed, first, distance) < usize::MAX,
    ensures
        ({
            let once = runtime.clicked(window, button, ButtonState::Pressed, first, distance);
            let twice = once.clicked(window, button, ButtonState::Pressed, second, near);
            let count = runtime.click_count(window, button, ButtonState::Pressed, first, distance);
            &&& once.click_count(window, button, ButtonState::Pressed, second, near) == count + 1
            &&& once.click_count(window, button, ButtonState::Released, release, near) == count
            &&& twice.click_count(window, button, ButtonState::Released, release, near) == count + 1
        }),
{
}

/// A press that comes too late or too far away starts counting anew.
pub proof fn law_slow_or_far_press_restarts<K: HostTypes>(
    runtime: RuntimeView<K>,
    window: u64,
    button: HostMouseButton,
    now: u64,
    distance: Scalar,
)
    requires
        runtime.clicks.contains_key(click_key_spec(window, button)),
        now - runtime.clicks[click_key_spec(window, button)].at > CLICK_INTERVAL
            || !distance.le_spec(Scalar { bits: FOUR_PIXELS_BITS }),
    ensures
        runtime.click_count(window, button, ButtonState::Pressed, now, distance) == 1,
{
}

/// A press counts for its own button and window only.
pub proof fn law_clicks_are_independent<K: HostTypes>(
    runtime: RuntimeView<K>,
    window: u64,
    button: HostMouseButton,
    now: u64,
    distance: Scalar,
    other_window: u64,
    other_button: HostMouseButton,
    state: ButtonState,
    later: u64,
    other_distance: Scalar,
)
    requires
        window != other_window || button != other_button,
    ensures
        runtime.clicked(window, button, ButtonState::Pressed, now, distance).click_count(
            other_window,
            other_button,
            state,
            later,
            other_distance,
        ) == runtime.click_count(other_window, other_button, state, later, other_distance),
{
    law_click_keys_are_distinct(window, button, other_window, other_button);
}

/// A root of a window is under a position exactly where both coordinates lie between
/// the edges of its viewport, the edges included. An edge or a coordinate that is no
/// number is under nothing.
pub proof fn law_root_is_under_pointer_between_edges<K: HostTypes>(
    runtime: RuntimeView<K>,
    window: u64,
    position: Point,
    id: u64,
)
    ensures
        runtime.ids_at(window, Some(position)).contains(id) <==> {
            let viewport = runtime.contexts[id].viewport;
            &&& runtime.mapped(window).contains(id)
            &&& runtime.contexts.contains_key(id)
            &&& !position.x.is_nan_spec() && !position.y.is_nan_spec()
            &&& !viewport.min.x.is_nan_spec() && !viewport.max.x.is_nan_spec()
            &&& !viewport.min.y.is_nan_spec() && !viewport.max.y.is_nan_spec()
            &&& viewport.min.x.units() <= position.x.units() <= viewport.max.x.units()
            &&& viewport.min.y.units() <= position.y.units() <= viewport.max.y.units()
        },
{
    lemma_ids_at(runtime, window, Some(position), id);
}

/// Roots whose viewports lie beside or below each other are never both under one
/// position: a message at a position reaches one side of a split screen only.
pub proof fn law_split_screens_share_no_position<K: HostTypes>(
    runtime: RuntimeView<K>,
    window: u64,
    position: Point,
    a: u64,
    b: u64,
)
    requires
        runtime.contexts[a].viewport.max.x.units() < runtime.contexts[b].viewport.min.x.units()
            || runtime.contexts[a].viewport.max.y.units()
            < runtime.contexts[b].viewport.min.y.units(),
    ensures
        !(runtime.ids_at(window, Some(position)).contains(a) && runtime.ids_at(
            window,
            Some(position),
        ).contains(b)),
{
    law_root_is_under_pointer_between_edges(runtime, window, position, a);
    law_root_is_under_pointer_between_edges(runtime, window, position, b);
}

/// Where no position is given, the place where the pointer was last seen in the window
/// counts, and where it was not seen every root of the window is meant.
pub proof fn law_last_seen_pointer_stands_in<K: HostTypes>(runtime: RuntimeView<K>, window: u64)
    ensures
        runtime.cursor_positions.contains_key(window) ==> runtime.ids_at(window, None)
            == runtime.ids_at(window, Some(runtime.cursor_positions[window])),
        !runtime.cursor_positions.contains_key(window) ==> runtime.ids_at(window, None)
            == runtime.mapped(window),
{
    if !runtime.cursor_positions.contains_key(window) {
        let keep = |id: u64| runtime.covers(id, runtime.pointer_at(window, None));
        lemma_filter_keeps_all(runtime.mapped(window), keep);
    }
}

/// Roots are told back to front: of two roots that are under a position, the one
/// further in front comes later.
pub proof fn law_roots_under_pointer_keep_their_order<K: HostTypes>(
    runtime: RuntimeView<K>,
    window: u64,
    position: Option<Point>,
    i: int,
    j: int,
)
    requires
        0 <= i < j < runtime.ids_at(window, position).len(),
    ensures
        exists|p: int, q: int|
            0 <= p < q < runtime.mapped(window).len() && #[trigger] runtime.mapped(window)[p]
                == runtime.ids_at(window, position)[i] && #[trigger] runtime.mapped(window)[q]
                == runtime.ids_at(window, position)[j],
{
    let keep = |id: u64| runtime.covers(id, runtime.pointer_at(window, position));
    lemma_filter_order(runtime.mapped(window), keep, i, j);
}

proof fn lemma_filter_keeps_all(ids: Seq<u64>, keep: spec_fn(u64) -> bool)
    requires
        forall|i: int| 0 <= i < ids.len() ==> keep(#[trigger] ids[i]),
    ensures
        ids.filter(keep) == ids,
    decreases ids.len(),
{
    reveal(Seq::filter);
    if ids.len() > 0 {
        let init = ids.drop_last();
        assert forall|i: int| 0 <= i < init.len() implies keep(#[trigger] init[i]) by {
            assert(init[i] == ids[i]);
        }
        lemma_filter_keeps_all(init, keep);
        assert(keep(ids[ids.len() - 1]));
        assert(init.push(ids.last()) =~= ids);
    } else {
        assert(ids.filter(keep) =~= ids);
    }
}

proof fn lemma_filter_order(ids: Seq<u64>, keep: spec_fn(u64) -> bool, i: int, j: int)
    requires
        0 <= i < j < ids.filter(keep).len(),
    ensures
        exists|p: int, q: int|
            0 <= p < q < ids.len() && #[trigger] ids[p] == ids.filter(keep)[i] && #[trigger] ids[q]
                == ids.filter(keep)[j],
    decreases ids.len(),
{
    reveal(Seq::filter);
    let init = ids.drop_last();
    let kept = init.filter(keep);
    if j < kept.len() {
        lemma_filter_order(init, keep, i, j);
        let (p, q) = choose|p: int, q: int|
            0 <= p < q < init.len() && #[trigger] init[p] == kept[i] && #[trigger] init[q]
                == kept[j];
        assert(ids[p] == init[p] && ids[q] == init[q]);
    } else {
        broadcast use vstd::seq_lib::group_filter_ensures;

        init.lemma_filter_contains_rev(keep, kept[i]);
        let p = choose|p: int| 0 <= p < init.len() && init[p] == kept[i];
        let q = ids.len() - 1;
        assert(ids[p] == init[p]);
        assert(ids[q] == ids.last());
    }
}

/// A root is among those under a position exactly where the window shows it and it is
/// under the position.
pub proof fn lemma_ids_at<K: HostTypes>(
    runtime: RuntimeView<K>,
    window: u64,
    position: Option<Point>,
    id: u64,
)
    ensures
        runtime.ids_at(window, position).contains(id) <==> runtime.mapped(window).contains(id)
            && runtime.covers(id, runtime.pointer_at(window, position)),
{
    broadcast use vstd::seq_lib::group_filter_ensures;

    let mapped = runtime.mapped(window);
    let keep = |id: u64| runtime.covers(id, runtime.pointer_at(window, position));
    let shown = mapped.filter(keep);
    if shown.contains(id) {
        let i = choose|i: int| 0 <= i < shown.len() && shown[i] == id;
        assert(keep(shown[i]));
        mapped.lemma_filter_contains_rev(keep, id);
    }
    if mapped.contains(id) && keep(id) {
        let i = choose|i: int| 0 <= i < mapped.len() && mapped[i] == id;
        assert(shown.contains(mapped[i]));
    }
}

/// A press continues a multiple click exactly where the same button was pressed in the
/// same window at most half a second before and at most four pixels away; otherwise it
/// starts a new one. A release has the count of the latest press, and one where there
/// was none.
pub proof fn law_clicks_continue_within_half_a_second_and_four_pixels<K: HostTypes>(
    runtime: RuntimeView<K>,
    window: u64,
    button: HostMouseButton,
    now: u64,
    distance: Scalar,
)
    ensures
        ({
            let key = click_key_spec(window, button);
            let pressed = runtime.click_count(window, button, ButtonState::Pressed, now, distance);
            let released = runtime.click_count(
                window,
                button,
                ButtonState::Released,
                now,
                distance,
            );
            let last = runtime.clicks[key];
            let near = !distance.is_nan_spec() && distance.units() <= 4 * pixel_units();
            &&& runtime.clicks.contains_key(key) && now <= last.at + 500 * 1_000_000 && near
                && last.count < usize::MAX ==> pressed == last.count + 1
            &&& runtime.clicks.contains_key(key) && now <= last.at + 500 * 1_000_000 && near
                && last.count == usize::MAX ==> pressed == usize::MAX
            &&& !runtime.clicks.contains_key(key) || now > last.at + 500 * 1_000_000 || !near
                ==> pressed == 1
            &&& runtime.clicks.contains_key(key) ==> released == last.count
            &&& !runtime.clicks.contains_key(key) ==> released == 1
        }),
{
    crate::scalar::law_four_pixels();
}

/// A press is remembered with its time, the window's pointer and its count, and
/// forgets no press of another button or in another window; a release changes nothing.
pub proof fn law_presses_are_remembered<K: HostTypes>(
    runtime: RuntimeView<K>,
    window: u64,
    button: HostMouseButton,
    now: u64,
    distance: Scalar,
    other_window: u64,
    other_button: HostMouseButton,
)
    ensures
        ({
            let after = runtime.clicked(window, button, ButtonState::Pressed, now, distance);
            let key = click_key_spec(window, button);
            let other = click_key_spec(other_window, other_button);
            &&& after.clicks.contains_key(key)
            &&& after.clicks[key].at == now
            &&& runtime.cursor_positions.contains_key(window) ==> after.clicks[key].position
                == runtime.cursor_positions[window]
            &&& !runtime.cursor_positions.contains_key(window)
                ==> after.clicks[key].position.x.bits == 0 && after.clicks[key].position.y.bits == 0
            &&& after.clicks[key].count == runtime.click_count(
                window,
                button,
                ButtonState::Pressed,
                now,
                distance,
            )
            &&& (other_window != window || other_button != button) ==> (after.clicks.contains_key(
                other,
            ) <==> runtime.clicks.contains_key(other)) && (runtime.clicks.contains_key(other)
                ==> after.clicks[other] == runtime.clicks[other])
            &&& after == (RuntimeView::<K> { clicks: after.clicks, ..runtime })
        }),
        runtime.clicked(window, button, ButtonState::Released, now, distance) == runtime,
{
    law_click_keys_are_distinct(window, button, other_window, other_button);
}

/// A pinch goes to every root that was clicked last in some window and is bound to a
/// window, and to no other root; where there is none, to at most one root, the front
/// one of a window, and to none only where no window shows a root.
pub proof fn law_pinch_goes_to_clicked_roots<K: HostTypes>(
    runtime: RuntimeView<K>,
    ids: Seq<u64>,
    window: u64,
)
    requires
        runtime.are_pinch_targets(ids),
    ensures
        runtime.focused_contexts.contains_key(window) && runtime.contexts.contains_key(
            runtime.focused_contexts[window],
        ) && runtime.contexts[runtime.focused_contexts[window]].window is Some ==> ids.contains(
            runtime.focused_contexts[window],
        ) && forall|i: int|
            0 <= i < ids.len() ==> exists|clicked: u64| #[trigger]
                runtime.focused_contexts.contains_key(clicked) && runtime.focused_contexts[clicked]
                    == #[trigger] ids[i],
        (forall|clicked: u64| #[trigger]
            runtime.focused_contexts.contains_key(clicked) ==> !(runtime.contexts.contains_key(
                runtime.focused_contexts[clicked],
            ) && runtime.contexts[runtime.focused_contexts[clicked]].window is Some))
            ==> ids.len() <= 1 && (ids.len() == 0 ==> runtime.mapped(window).len() == 0) && (
        ids.len() == 1 ==> exists|front: u64|
            (#[trigger] runtime.mapped(front)).len() > 0 && ids[0] == runtime.mapped(front).last()),
{
    let all = runtime.clicked_windows();
    if runtime.focused_contexts.contains_key(window) && runtime.contexts.contains_key(
        runtime.focused_contexts[window],
    ) && runtime.contexts[runtime.focused_contexts[window]].window is Some {
        assert(runtime.click_counts(window));
        assert(all.contains(window));
        assert(all != Set::<u64>::empty());
        let pick = |window: u64| runtime.focused_contexts[window];
        let windows = choose|windows: Seq<u64>| #[trigger]
            lists(windows, all) && ids == windows.map_values(pick);
        assert(windows.to_set().contains(window));
        let i = choose|i: int| 0 <= i < windows.len() && windows[i] == window;
        assert(ids[i] == runtime.focused_contexts[window]);
        assert forall|i: int| 0 <= i < ids.len() implies exists|clicked: u64| #[trigger]
            runtime.focused_contexts.contains_key(clicked) && runtime.focused_contexts[clicked]
                == #[trigger] ids[i] by {
            assert(windows.to_set().contains(windows[i]));
            assert(runtime.focused_contexts.contains_key(windows[i]));
            assert(runtime.focused_contexts[windows[i]] == ids[i]);
        }
    }
    if forall|clicked: u64| #[trigger]
        runtime.focused_contexts.contains_key(clicked) ==> !(runtime.contexts.contains_key(
            runtime.focused_contexts[clicked],
        ) && runtime.contexts[runtime.focused_contexts[clicked]].window is Some) {
        assert(all =~= Set::<u64>::empty());
        if exists|front: u64|
            (#[trigger] runtime.mapped(front)).len() > 0 && ids == seq![
                runtime.mapped(front).last(),
            ] {
            let front = choose|front: u64|
                (#[trigger] runtime.mapped(front)).len() > 0 && ids == seq![
                    runtime.mapped(front).last(),
                ];
            assert(ids[0] == runtime.mapped(front).last());
        }
    }
}

/// The keyboard of a window goes to the root clicked last in it exactly while that
/// root exists and is bound to that window, and otherwise to the last of the roots the
/// window shows.
pub proof fn law_keyboard_goes_to_clicked_or_front_root<K: HostTypes>(
    runtime: RuntimeView<K>,
    window: u64,
    id: u64,
)
    ensures
        runtime.keyboard_ids(window).contains(id) <==> if runtime.focused_contexts.contains_key(
            window,
        ) && runtime.contexts.contains_key(runtime.focused_contexts[window])
            && runtime.contexts[runtime.focused_contexts[window]].window == Some(window) {
            id == runtime.focused_contexts[window]
        } else {
            runtime.window_contexts.contains_key(window) && runtime.window_contexts[window].len()
                > 0 && id == runtime.window_contexts[window].last()
        },
{
    let ids = runtime.keyboard_ids(window);
    if ids.len() > 0 {
        assert(ids[0] == ids.last());
        assert(ids.contains(ids[0]));
    }
}

/// The modifiers and caps lock of a window are those noted for it, and none where
/// nothing was noted; so is its pointer, at the origin.
pub proof fn law_windows_start_without_keys<K: HostTypes>(runtime: RuntimeView<K>, window: u64)
    ensures
        runtime.modifiers.contains_key(window) ==> runtime.modifiers_in(window)
            == runtime.modifiers[window],
        !runtime.modifiers.contains_key(window) ==> {
            let held = runtime.modifiers_in(window);
            !held.control && !held.alt && !held.shift && !held.platform && !held.function
        },
        runtime.capslock.contains_key(window) ==> runtime.capslock_in(window)
            == runtime.capslock[window],
        !runtime.capslock.contains_key(window) ==> !runtime.capslock_in(window).on,
        runtime.cursor_positions.contains_key(window) ==> runtime.cursor_in(window)
            == runtime.cursor_positions[window],
        !runtime.cursor_positions.contains_key(window) ==> runtime.cursor_in(window).x.units() == 0
            && runtime.cursor_in(window).y.units() == 0,
{
}

/// A root that was opened exists, is in no window yet, and leaves the other roots as
/// they were.
pub proof fn law_opened_root_is_in_no_window<K: HostTypes>(
    runtime: RuntimeView<K>,
    id: u64,
    handle: K::Handle,
    other: u64,
)
    ensures
        runtime.opened(id, handle).windows.contains_key(id),
        runtime.opened(id, handle).windows[id] == handle,
        runtime.opened(id, handle).contexts.contains_key(id),
        runtime.opened(id, handle).contexts[id].window is None,
        runtime.opened(id, handle).contexts[id].order == 0,
        other != id ==> (runtime.opened(id, handle).contexts.contains_key(other)
            <==> runtime.contexts.contains_key(other)) && (runtime.opened(
            id,
            handle,
        ).windows.contains_key(other) <==> runtime.windows.contains_key(other)),
        runtime.opened(id, handle).window_contexts == runtime.window_contexts,
        runtime.opened(id, handle).focused_contexts == runtime.focused_contexts,
{
}

} // verus!
