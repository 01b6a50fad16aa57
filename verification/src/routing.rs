//! Routing of host input to the roots shown in a window.
use crate::geometry::Point;
use crate::host::HostTypes;
use crate::ids::{lists, map_ids};
use crate::input::{
    map_mouse_button, map_touch_phase, map_window_theme, mouse_button_spec, scroll_delta,
    scroll_delta_spec, touch_phase_spec, window_theme_spec, AppLifecycle, HostMouseButton,
    HostTouchPhase, ImeEvent, KeyEvent, Keystroke, RoutedInput, ScrollDelta, ScrollUnit, WindowTheme,
};
use crate::input_state::{GpuiInputState, InputView};
use crate::keys::{
    ascii_lowercase, capslock_after, is_modifier_key, key_name, map_logical_key, modifiers_after,
    update_modifier_state, ButtonState, Capslock, LogicalKey, Modifiers,
};
use crate::runtime::{click_key_spec, lemma_ids_at, GpuiRuntime, RuntimeView};
use crate::scalar::Scalar;
use crate::steps::{
    active_steps, appearance_steps, are_ime_steps, are_key_steps, build_active_steps,
    build_appearance_steps, build_button_down_steps, build_button_up_steps, build_close_steps,
    build_exit_steps, build_file_dropped_steps, build_file_entered_steps, build_file_exited_steps,
    build_hover_steps, build_modifier_steps, build_moved_steps, build_wheel_steps, button_steps,
    claims_keyboard, close_steps, exit_steps, file_steps, file_window, hover_steps, is_dispatch,
    is_ime_delivery, is_ime_step, is_key_step, is_press_of, key_char_spec, law_answers_accumulate,
    lemma_one_step_each, lemma_steps_for_all, lemma_steps_for_take, lemma_two_steps_each,
    modifier_steps, move_steps, moved_steps, reads,
    recorded_all, steps_for, wheel_steps, FileEvent, HostEvent, ImeStep, InputStep, KeyPress,
    RootMessage, StepAnswer, StepRecord,
};
use crate::text::{
    byte_range_to_utf16, encode_utf16, law_range_converts_between_characters, utf16_range,
};
use crate::window::BevyPlatformWindow;
use vstd::prelude::*;
use vstd::utf8::encode_utf8;

verus! {

broadcast use vstd::std_specs::hash::group_hash_axioms;

/// What the host found out before a message is routed.
pub struct HostAnswers {
    /// The time in nanoseconds.
    pub now: u64,
    /// The way from the latest press of a button to the pointer.
    pub click_distance: Scalar,
}

impl<K: HostTypes> RuntimeView<K> {
    /// The modifiers that count for a root: those held in its window.
    pub open spec fn modifiers_for(self, id: u64) -> Modifiers {
        if self.contexts.contains_key(id) {
            match self.contexts[id].window {
                Some(window) => self.modifiers_in(window),
                None => Modifiers::none_spec(),
            }
        } else {
            Modifiers::none_spec()
        }
    }

    /// The window whose pointer a root can claim.
    pub open spec fn claim_of(self, id: u64) -> Option<u64> {
        if self.contexts.contains_key(id) {
            self.contexts[id].window
        } else {
            None
        }
    }

    /// The steps that deliver a pinch to roots.
    pub open spec fn pinch_steps(self, ids: Seq<u64>, amount: Scalar) -> Seq<InputStep> {
        steps_for(
            ids,
            |id: u64|
                seq![
                    InputStep::Pointer {
                        id,
                        claim: self.claim_of(id),
                        input: RoutedInput::Pinch { amount, modifiers: self.modifiers_for(id) },
                    },
                ],
        )
    }

    /// The runtime once the pointer moved in a window.
    pub open spec fn with_cursor(self, window: u64, position: Point) -> RuntimeView<K> {
        RuntimeView { cursor_positions: self.cursor_positions.insert(window, position), ..self }
    }

    /// The runtime once the pointer left a window.
    pub open spec fn without_cursor(self, window: u64) -> RuntimeView<K> {
        RuntimeView { cursor_positions: self.cursor_positions.remove(window), ..self }
    }

    /// The runtime once a window lost the keyboard.
    pub open spec fn blurred(self, window: u64) -> RuntimeView<K> {
        RuntimeView {
            focused_contexts: self.focused_contexts.remove(window),
            modifiers: self.modifiers.remove(window),
            capslock: self.capslock.remove(window),
            ..self
        }
    }

    /// The runtime once a button went down over roots of a window, or came up: a
    /// press gives the front root the keyboard.
    pub open spec fn pressed(self, window: u64, state: ButtonState, ids: Seq<u64>) -> RuntimeView<
        K,
    > {
        if state == ButtonState::Pressed && ids.len() > 0 {
            RuntimeView {
                focused_contexts: self.focused_contexts.insert(window, ids.last()),
                ..self
            }
        } else {
            self
        }
    }

    /// The runtime once a key was noted.
    pub open spec fn keyed(self, event: KeyEvent) -> RuntimeView<K> {
        RuntimeView {
            modifiers: self.modifiers.insert(
                event.window,
                modifiers_after(event.logical_key, event.state, self.modifiers_in(event.window)),
            ),
            capslock: self.capslock.insert(
                event.window,
                capslock_after(event.logical_key, event.state, self.capslock_in(event.window)),
            ),
            ..self
        }
    }

    /// Whether routing a message in this state leads to a state, to an input
    /// ownership, and to steps.
    pub open spec fn routes(
        self,
        input: InputView,
        event: HostEvent,
        answers: HostAnswers,
        after: RuntimeView<K>,
        input_after: InputView,
        steps: Seq<InputStep>,
    ) -> bool {
        match event {
            HostEvent::Lifecycle(lifecycle) => {
                let active = lifecycle.is_active_spec();
                &&& after == (RuntimeView::<K> { application_active: active, ..self })
                &&& input_after == input
                &&& exists|ids: Seq<u64>| #[trigger]
                    lists(ids, self.contexts.dom()) && steps == active_steps(ids, active)
            },
            HostEvent::CloseRequested { window } => {
                &&& after == self
                &&& input_after == input
                &&& steps == close_steps(self.ids_at(window, None), window)
            },
            HostEvent::Moved { window } => {
                &&& after == self
                &&& input_after == input
                &&& steps == moved_steps(self.ids_at(window, None))
            },
            HostEvent::ThemeChanged { window, theme } => {
                &&& after == self
                &&& input_after == input
                &&& steps == appearance_steps(self.ids_at(window, None), window_theme_spec(theme))
            },
            HostEvent::CursorMoved { window, position } => {
                &&& after == self.with_cursor(window, position)
                &&& input_after == input.released(window)
                &&& steps == move_steps(
                    self.ids_at(window, Some(position)),
                    window,
                    position,
                    self.modifiers_in(window),
                    self.contexts,
                )
            },
            HostEvent::CursorEntered { window } => {
                &&& after == self
                &&& input_after == input
                &&& steps == hover_steps(self.ids_at(window, None))
            },
            HostEvent::CursorLeft { window } => {
                &&& after == self.without_cursor(window)
                &&& input_after == input
                &&& steps == exit_steps(
                    self.ids_at(window, None),
                    window,
                    self.modifiers_in(window),
                )
            },
            HostEvent::Focus { window, focused } => {
                &&& after == (if focused {
                    self
                } else {
                    self.blurred(window)
                })
                &&& input_after == input
                &&& steps == (if focused {
                    Seq::empty()
                } else {
                    modifier_steps(
                        self.ids_at(window, None),
                        Modifiers::none_spec(),
                        Capslock::off_spec(),
                    )
                })
            },
            HostEvent::Button { window, button, state } => match mouse_button_spec(button) {
                None => after == self && input_after == input && steps.len() == 0,
                Some(named) => {
                    let ids = self.ids_at(window, None);
                    &&& after == self.pressed(window, state, ids).clicked(
                        window,
                        button,
                        state,
                        answers.now,
                        answers.click_distance,
                    )
                    &&& input_after == input.released(window)
                    &&& steps == button_steps(
                        ids,
                        window,
                        named,
                        state,
                        self.modifiers_in(window),
                        self.click_count(window, button, state, answers.now, answers.click_distance),
                    )
                },
            },
            HostEvent::Wheel { window, unit, x, y, phase } => {
                &&& after == self
                &&& input_after == input.released(window)
                &&& steps == wheel_steps(
                    self.ids_at(window, None),
                    window,
                    scroll_delta_spec(unit, x, y),
                    self.modifiers_in(window),
                    touch_phase_spec(phase),
                )
            },
            HostEvent::Pinch { amount } => {
                &&& after == self
                &&& input_after == input
                &&& exists|ids: Seq<u64>| #[trigger]
                    self.are_pinch_targets(ids) && steps == self.pinch_steps(ids, amount)
            },
            HostEvent::File(file) => {
                &&& after == self
                &&& input_after == input.released(file_window(file))
                &&& steps == file_steps(self.ids_at(file_window(file), None), file)
            },
            HostEvent::Key(key) => {
                &&& after == self.keyed(key)
                &&& input_after == input
                &&& self.routes_key(key, steps)
            },
            HostEvent::Ime(ime) => {
                &&& after == self
                &&& input_after == input
                &&& are_ime_steps(steps, self.keyboard_ids(ime.window_spec()), ime)
            },
        }
    }

    /// Whether steps are those of a key: a modifier changes the keyboard state, a
    /// key without a name is dropped, and any other key is delivered.
    pub open spec fn routes_key(self, event: KeyEvent, steps: Seq<InputStep>) -> bool {
        let noted = self.keyed(event);
        let ids = noted.keyboard_ids(event.window);
        let modifiers = noted.modifiers_in(event.window);
        let capslock = noted.capslock_in(event.window);
        if is_modifier_key(event.logical_key) {
            steps == modifier_steps(ids, modifiers, capslock)
        } else if key_name(event.logical_key) is None {
            steps.len() == 0
        } else {
            are_key_steps(steps, ids, event, modifiers, capslock)
        }
    }
}

/// Copies optional text.
fn clone_text(text: &Option<String>) -> (r: Option<String>)
    ensures
        match text {
            Some(t) => r matches Some(s) && s@ == t@,
            None => r is None,
        },
{
    match text {
        Some(text) => Some(text.clone()),
        None => None,
    }
}

/// The text a key is matched by.
fn key_char(event: &KeyEvent) -> (r: Option<String>)
    ensures
        reads(r, key_char_spec(*event)),
{
    match &event.text {
        Some(text) => Some(text.clone()),
        None => match &event.logical_key {
            LogicalKey::Character(text) => Some(text.clone()),
            _ => None,
        },
    }
}

/// The steps that deliver a key with a name to roots.
fn build_key_steps(
    ids: &Vec<u64>,
    event: &KeyEvent,
    name: &String,
    modifiers: Modifiers,
    capslock: Capslock,
) -> (r: Vec<InputStep>)
    requires
        key_name(event.logical_key) == Some(name@),
    ensures
        are_key_steps(r@, ids@, *event, modifiers, capslock),
{
    let mut steps: Vec<InputStep> = Vec::new();
    let mut index: usize = 0;
    while index < ids.len()
        invariant
            index <= ids@.len(),
            key_name(event.logical_key) == Some(name@),
            steps@.len() == index,
            forall|i: int|
                0 <= i < index ==> #[trigger] is_key_step(
                    steps@[i],
                    ids@[i],
                    *event,
                    modifiers,
                    capslock,
                ),
        decreases ids@.len() - index,
    {
        let id: u64 = ids[index];
        let press = KeyPress {
            keystroke: Keystroke {
                modifiers,
                key: name.clone(),
                key_char: key_char(event),
                physical_key: Some(event.key_code.as_str().to_ascii_lowercase()),
            },
            state: event.state,
            is_held: event.repeat,
            text: clone_text(&event.text),
        };
        assert(is_press_of(press, *event, modifiers));
        let ghost before = steps@;
        steps.push(InputStep::Key { id, capslock, press });
        proof {
            assert forall|i: int| 0 <= i < index + 1 implies #[trigger] is_key_step(
                steps@[i],
                ids@[i],
                *event,
                modifiers,
                capslock,
            ) by {
                if i < index {
                    assert(steps@[i] == before[i]);
                    assert(is_key_step(before[i], ids@[i], *event, modifiers, capslock));
                }
            }
        }
        index = index + 1;
    }
    steps
}

/// A step of composition for a root.
fn build_ime_step(event: &ImeEvent) -> (r: ImeStep)
    ensures
        is_ime_step(r, *event),
{
    match event {
        ImeEvent::Preedit { value, cursor, .. } => {
            let selected = match cursor {
                Some((start, end)) => byte_range_to_utf16(value.as_str(), *start, *end),
                None => None,
            };
            ImeStep::Preedit { value: value.clone(), selected }
        },
        ImeEvent::Commit { value, .. } => ImeStep::Commit { value: value.clone() },
        ImeEvent::Enabled { .. } => ImeStep::Enabled,
        ImeEvent::Disabled { .. } => ImeStep::Disabled,
    }
}

impl<K: HostTypes> GpuiRuntime<K> {
    /// The two positions whose distance the host has to find out before a message is
    /// routed: for a press of a button that was pressed before, where it was and
    /// where the pointer is now.
    pub fn click_query(&self, event: &HostEvent) -> (r: Option<(Point, Point)>)
        ensures
            r == (match *event {
                HostEvent::Button { window, button, state: ButtonState::Pressed } => {
                    let key = click_key_spec(window, button);
                    if self@.clicks.contains_key(key) {
                        Some((self@.clicks[key].position, self@.cursor_in(window)))
                    } else {
                        None
                    }
                },
                _ => None,
            }),
    {
        match event {
            HostEvent::Button { window, button, state: ButtonState::Pressed } => {
                match self.last_click(*window, *button) {
                    Some(last) => Some((last, self.cursor_in(*window))),
                    None => None,
                }
            },
            _ => None,
        }
    }

    /// The roots shown in some window, in no particular order.
    pub fn shown_roots(&self) -> (r: Vec<u64>)
        ensures
            forall|id: u64| #[trigger]
                r@.contains(id) <==> exists|window: u64| #[trigger]
                    self@.mapped(window).contains(id),
    {
        let windows = self.shown_windows();
        let mut out: Vec<u64> = Vec::new();
        let mut index: usize = 0;
        while index < windows.len()
            invariant
                index <= windows@.len(),
                lists(windows@, self@.window_contexts.dom()),
                forall|id: u64| #[trigger]
                    out@.contains(id) <==> exists|i: int|
                        0 <= i < index && self@.mapped(#[trigger] windows@[i]).contains(id),
            decreases windows@.len() - index,
        {
            let mut ids = self.mapped(windows[index]);
            let ghost before = out@;
            let ghost added = ids@;
            out.append(&mut ids);
            proof {
                assert forall|id: u64| #[trigger] out@.contains(id) <==> exists|i: int|
                    0 <= i < index + 1 && self@.mapped(#[trigger] windows@[i]).contains(id) by {
                    if out@.contains(id) {
                        let k = choose|k: int| 0 <= k < out@.len() && out@[k] == id;
                        if k < before.len() {
                            assert(before[k] == id);
                            assert(before.contains(id));
                            let i = choose|i: int|
                                0 <= i < index && self@.mapped(#[trigger] windows@[i]).contains(id);
                            assert(0 <= i < index + 1 && self@.mapped(windows@[i]).contains(id));
                        } else {
                            assert(added[k - before.len()] == id);
                            assert(self@.mapped(windows@[index as int]).contains(id));
                        }
                    }
                    if exists|i: int|
                        0 <= i < index + 1 && self@.mapped(#[trigger] windows@[i]).contains(id) {
                        let i = choose|i: int|
                            0 <= i < index + 1 && self@.mapped(#[trigger] windows@[i]).contains(id);
                        if i < index {
                            assert(before.contains(id));
                            let k = choose|k: int| 0 <= k < before.len() && before[k] == id;
                            assert(out@[k] == id);
                        } else {
                            let k = choose|k: int| 0 <= k < added.len() && added[k] == id;
                            assert(out@[before.len() + k] == id);
                        }
                    }
                }
            }
            index = index + 1;
        }
        proof {
            assert forall|id: u64| #[trigger] out@.contains(id) <==> exists|window: u64| #[trigger]
                self@.mapped(window).contains(id) by {
                if exists|window: u64| #[trigger] self@.mapped(window).contains(id) {
                    let window = choose|window: u64| #[trigger] self@.mapped(window).contains(id);
                    assert(self@.window_contexts.contains_key(window));
                    assert(windows@.to_set().contains(window));
                    let i = choose|i: int| 0 <= i < windows@.len() && windows@[i] == window;
                    assert(self@.mapped(windows@[i]).contains(id));
                }
            }
        }
        out
    }

    /// The windows that show a root.
    pub fn shown_windows(&self) -> (r: Vec<u64>)
        ensures
            lists(r@, self@.window_contexts.dom()),
    {
        let windows = map_ids(&self.window_contexts);
        proof {
            assert(self@.window_contexts.dom() =~= self.window_contexts@.dom());
        }
        windows
    }

    /// Routes a change of the application's lifecycle.
    pub fn route_lifecycle(&mut self, event: AppLifecycle) -> (r: Vec<InputStep>)
        ensures
            final(self)@ == (RuntimeView::<K> {
                application_active: event.is_active_spec(),
                ..old(self)@
            }),
            exists|ids: Seq<u64>| #[trigger]
                lists(ids, old(self)@.contexts.dom()) && r@ == active_steps(
                    ids,
                    event.is_active_spec(),
                ),
    {
        let active: bool = event.is_active();
        self.application_active = active;
        let ids = self.context_ids();
        build_active_steps(&ids, active)
    }

    /// Routes a pointer that moved: the claim on the window is decided anew.
    pub fn route_cursor_moved(
        &mut self,
        window: u64,
        position: Point,
        input: &mut GpuiInputState,
    ) -> (r: Vec<InputStep>)
        ensures
            final(self)@ == old(self)@.with_cursor(window, position),
            final(input)@ == old(input)@.released(window),
            r@ == move_steps(
                old(self)@.ids_at(window, Some(position)),
                window,
                position,
                old(self)@.modifiers_in(window),
                old(self)@.contexts,
            ),
    {
        input.release_pointer(window);
        let ids = self.context_ids_at(window, Some(position));
        let ghost shown = self@.ids_at(window, Some(position));
        let ghost contexts = self@.contexts;
        let modifiers = self.modifiers_in(window);
        self.cursor_positions.insert(window, position);
        let mut steps: Vec<InputStep> = Vec::new();
        let ghost each = |id: u64|
            seq![
                InputStep::Pointer {
                    id,
                    claim: Some(window),
                    input: RoutedInput::CursorMove {
                        position,
                        viewport_origin: contexts[id].viewport.min,
                        modifiers,
                    },
                },
            ];
        let mut index: usize = 0;
        proof {
            lemma_steps_for_all(ids@, each);
            assert forall|i: int| 0 <= i < ids@.len() implies contexts.contains_key(
                #[trigger] ids@[i],
            ) by {
                let keep = |id: u64|
                    old(self)@.covers(id, old(self)@.pointer_at(window, Some(position)));
                broadcast use vstd::seq_lib::group_filter_ensures;

                assert(keep(old(self)@.mapped(window).filter(keep)[i]));
            }
        }
        while index < ids.len()
            invariant
                index <= ids@.len(),
                contexts == self.contexts@,
                forall|i: int| 0 <= i < ids@.len() ==> contexts.contains_key(#[trigger] ids@[i]),
                each == (|id: u64|
                    seq![
                        InputStep::Pointer {
                            id,
                            claim: Some(window),
                            input: RoutedInput::CursorMove {
                                position,
                                viewport_origin: contexts[id].viewport.min,
                                modifiers,
                            },
                        },
                    ]),
                steps@ == steps_for(ids@.take(index as int), each),
            decreases ids@.len() - index,
        {
            let id: u64 = ids[index];
            proof {
                lemma_steps_for_take(ids@, index as int, each);
            }
            if let Some(binding) = self.contexts.get(&id) {
                steps.push(
                    InputStep::Pointer {
                        id,
                        claim: Some(window),
                        input: RoutedInput::CursorMove {
                            position,
                            viewport_origin: binding.viewport.min,
                            modifiers,
                        },
                    },
                );
            }
            index = index + 1;
        }
        proof {
            lemma_steps_for_all(ids@, each);
        }
        steps
    }

    /// Routes a pointer that left a window: its position is forgotten and, once
    /// the roots have heard of it, its claim dropped.
    pub fn route_cursor_left(&mut self, window: u64) -> (r: Vec<InputStep>)
        ensures
            final(self)@ == old(self)@.without_cursor(window),
            r@ == exit_steps(
                old(self)@.ids_at(window, None),
                window,
                old(self)@.modifiers_in(window),
            ),
    {
        let ids = self.context_ids_at(window, None);
        let modifiers = self.modifiers_in(window);
        self.cursor_positions.remove(&window);
        build_exit_steps(&ids, window, modifiers)
    }

    /// Routes a window that gained or lost the keyboard.
    pub fn route_focus(&mut self, window: u64, focused: bool) -> (r: Vec<InputStep>)
        ensures
            focused ==> final(self)@ == old(self)@ && r@ == Seq::<InputStep>::empty(),
            !focused ==> final(self)@ == old(self)@.blurred(window) && r@ == modifier_steps(
                old(self)@.ids_at(window, None),
                Modifiers::none_spec(),
                Capslock::off_spec(),
            ),
    {
        if focused {
            return Vec::new();
        }
        let ids = self.context_ids_at(window, None);
        self.focused_contexts.remove(&window);
        self.modifiers.remove(&window);
        self.capslock.remove(&window);
        build_modifier_steps(&ids, Modifiers::default(), Capslock::default())
    }

    /// Routes a button: a press gives the front root under the pointer the
    /// keyboard. A button without a name is dropped.
    pub fn route_button(
        &mut self,
        window: u64,
        button: HostMouseButton,
        state: ButtonState,
        now: u64,
        click_distance: Scalar,
        input: &mut GpuiInputState,
    ) -> (r: Vec<InputStep>)
        ensures
            mouse_button_spec(button) is None ==> final(self)@ == old(self)@ && final(input)@ == old(
                input,
            )@ && r@.len() == 0,
            mouse_button_spec(button) matches Some(named) ==> {
                let ids = old(self)@.ids_at(window, None);
                &&& final(self)@ == old(self)@.pressed(window, state, ids).clicked(
                    window,
                    button,
                    state,
                    now,
                    click_distance,
                )
                &&& final(input)@ == old(input)@.released(window)
                &&& r@ == button_steps(
                    ids,
                    window,
                    named,
                    state,
                    old(self)@.modifiers_in(window),
                    old(self)@.click_count(window, button, state, now, click_distance),
                )
            },
    {
        let named = match map_mouse_button(button) {
            Some(named) => named,
            None => {
                return Vec::new();
            },
        };
        input.release_pointer(window);
        let ids = self.context_ids_at(window, None);
        let pressed: bool = match state {
            ButtonState::Pressed => true,
            ButtonState::Released => false,
        };
        if pressed && ids.len() > 0 {
            self.focused_contexts.insert(window, ids[ids.len() - 1]);
        }
        let modifiers = self.modifiers_in(window);
        let click_count: usize = self.click_count(window, button, state, now, click_distance);
        match state {
            ButtonState::Pressed => build_button_down_steps(
                &ids,
                window,
                named,
                modifiers,
                click_count,
            ),
            ButtonState::Released => build_button_up_steps(
                &ids,
                window,
                named,
                modifiers,
                click_count,
            ),
        }
    }

    /// Routes a wheel movement.
    pub fn route_wheel(
        &self,
        window: u64,
        unit: ScrollUnit,
        x: Scalar,
        y: Scalar,
        phase: HostTouchPhase,
        input: &mut GpuiInputState,
    ) -> (r: Vec<InputStep>)
        ensures
            final(input)@ == old(input)@.released(window),
            r@ == wheel_steps(
                self@.ids_at(window, None),
                window,
                scroll_delta_spec(unit, x, y),
                self@.modifiers_in(window),
                touch_phase_spec(phase),
            ),
    {
        input.release_pointer(window);
        let delta = scroll_delta(unit, x, y);
        let phase = map_touch_phase(phase);
        let modifiers = self.modifiers_in(window);
        let ids = self.context_ids_at(window, None);
        build_wheel_steps(&ids, window, delta, modifiers, phase)
    }

    /// Routes a pinch to given roots, each under the modifiers of its window.
    pub fn route_pinch(&self, ids: &Vec<u64>, amount: Scalar) -> (r: Vec<InputStep>)
        ensures
            r@ == self@.pinch_steps(ids@, amount),
    {
        let mut steps: Vec<InputStep> = Vec::new();
        let ghost each = |id: u64|
            seq![
                InputStep::Pointer {
                    id,
                    claim: self@.claim_of(id),
                    input: RoutedInput::Pinch { amount, modifiers: self@.modifiers_for(id) },
                },
            ];
        let mut index: usize = 0;
        proof {
            lemma_steps_for_all(ids@, each);
        }
        while index < ids.len()
            invariant
                index <= ids@.len(),
                each == (|id: u64|
                    seq![
                        InputStep::Pointer {
                            id,
                            claim: self@.claim_of(id),
                            input: RoutedInput::Pinch {
                                amount,
                                modifiers: self@.modifiers_for(id),
                            },
                        },
                    ]),
                steps@ == steps_for(ids@.take(index as int), each),
            decreases ids@.len() - index,
        {
            let id: u64 = ids[index];
            proof {
                lemma_steps_for_take(ids@, index as int, each);
            }
            let claim: Option<u64> = match self.contexts.get(&id) {
                Some(binding) => binding.window,
                None => None,
            };
            let modifiers = match claim {
                Some(window) => self.modifiers_in(window),
                None => Modifiers::default(),
            };
            steps.push(
                InputStep::Pointer { id, claim, input: RoutedInput::Pinch { amount, modifiers } },
            );
            index = index + 1;
        }
        proof {
            lemma_steps_for_all(ids@, each);
        }
        steps
    }

    /// Routes a file that is over a window, dropped on it or taken away.
    pub fn route_file(&self, event: &FileEvent, input: &mut GpuiInputState) -> (r: Vec<InputStep>)
        ensures
            final(input)@ == old(input)@.released(file_window(*event)),
            r@ == file_steps(self@.ids_at(file_window(*event), None), *event),
    {
        match event {
            FileEvent::Hovered { window, path } => {
                input.release_pointer(*window);
                let ids = self.context_ids_at(*window, None);
                build_file_entered_steps(&ids, *window, path)
            },
            FileEvent::Dropped { window, path } => {
                input.release_pointer(*window);
                let ids = self.context_ids_at(*window, None);
                build_file_dropped_steps(&ids, *window, path)
            },
            FileEvent::Canceled { window } => {
                input.release_pointer(*window);
                let ids = self.context_ids_at(*window, None);
                build_file_exited_steps(&ids, *window)
            },
        }
    }

    /// Routes a key.
    pub fn route_key(&mut self, event: &KeyEvent) -> (r: Vec<InputStep>)
        ensures
            final(self)@ == old(self)@.keyed(*event),
            old(self)@.routes_key(*event, r@),
    {
        let window: u64 = event.window;
        let mut modifiers = self.modifiers_in(window);
        let mut capslock = self.capslock_in(window);
        let is_modifier: bool = update_modifier_state(
            &event.logical_key,
            event.state,
            &mut modifiers,
            &mut capslock,
        );
        self.modifiers.insert(window, modifiers);
        self.capslock.insert(window, capslock);
        assert(self@ == old(self)@.keyed(*event));
        let ids = self.keyboard_context_ids(window);
        if is_modifier {
            return build_modifier_steps(&ids, modifiers, capslock);
        }
        match map_logical_key(&event.logical_key) {
            None => Vec::new(),
            Some(name) => build_key_steps(&ids, event, &name, modifiers, capslock),
        }
    }

    /// Routes a step of text composition.
    pub fn route_ime(&self, event: &ImeEvent) -> (r: Vec<InputStep>)
        ensures
            are_ime_steps(r@, self@.keyboard_ids(event.window_spec()), *event),
    {
        let ids = self.keyboard_context_ids(event.window());
        let mut steps: Vec<InputStep> = Vec::new();
        let mut index: usize = 0;
        while index < ids.len()
            invariant
                index <= ids@.len(),
                steps@.len() == index,
                forall|i: int|
                    0 <= i < index ==> #[trigger] is_ime_delivery(steps@[i], ids@[i], *event),
            decreases ids@.len() - index,
        {
            let id: u64 = ids[index];
            let step = build_ime_step(event);
            let ghost before = steps@;
            steps.push(InputStep::Ime { id, step });
            proof {
                assert forall|i: int| 0 <= i < index + 1 implies #[trigger] is_ime_delivery(
                    steps@[i],
                    ids@[i],
                    *event,
                ) by {
                    if i < index {
                        assert(steps@[i] == before[i]);
                        assert(is_ime_delivery(before[i], ids@[i], *event));
                    }
                }
            }
            index = index + 1;
        }
        steps
    }

    /// Routes one message of the host and returns the steps that carry it out, in
    /// order.
    pub fn route_event(
        &mut self,
        event: &HostEvent,
        answers: &HostAnswers,
        input: &mut GpuiInputState,
    ) -> (r: Vec<InputStep>)
        ensures
            old(self)@.routes(old(input)@, *event, *answers, final(self)@, final(input)@, r@),
    {
        match event {
            HostEvent::Lifecycle(lifecycle) => self.route_lifecycle(*lifecycle),
            HostEvent::CloseRequested { window } => {
                let ids = self.context_ids_at(*window, None);
                build_close_steps(&ids, *window)
            },
            HostEvent::Moved { window } => {
                let ids = self.context_ids_at(*window, None);
                build_moved_steps(&ids)
            },
            HostEvent::ThemeChanged { window, theme } => {
                let ids = self.context_ids_at(*window, None);
                build_appearance_steps(&ids, map_window_theme(*theme))
            },
            HostEvent::CursorMoved { window, position } => self.route_cursor_moved(
                *window,
                *position,
                input,
            ),
            HostEvent::CursorEntered { window } => {
                let ids = self.context_ids_at(*window, None);
                build_hover_steps(&ids)
            },
            HostEvent::CursorLeft { window } => self.route_cursor_left(*window),
            HostEvent::Focus { window, focused } => self.route_focus(*window, *focused),
            HostEvent::Button { window, button, state } => self.route_button(
                *window,
                *button,
                *state,
                answers.now,
                answers.click_distance,
                input,
            ),
            HostEvent::Wheel { window, unit, x, y, phase } => self.route_wheel(
                *window,
                *unit,
                *x,
                *y,
                *phase,
                input,
            ),
            HostEvent::Pinch { amount } => {
                let ids = self.pinch_targets();
                self.route_pinch(&ids, *amount)
            },
            HostEvent::File(file) => self.route_file(file, input),
            HostEvent::Key(key) => self.route_key(key),
            HostEvent::Ime(ime) => self.route_ime(ime),
        }
    }
}

/// The window whose pointer claim a message decides anew.
pub open spec fn decides_claim(event: HostEvent) -> Option<u64> {
    match event {
        HostEvent::CursorMoved { window, .. } => Some(window),
        HostEvent::Button { window, button, .. } => if mouse_button_spec(button) is Some {
            Some(window)
        } else {
            None
        },
        HostEvent::Wheel { window, .. } => Some(window),
        HostEvent::File(file) => Some(file_window(file)),
        _ => None,
    }
}

/// Whether every answer to steps counts for the pointer of a window.
pub open spec fn all_for_pointer(steps: Seq<InputStep>, window: u64) -> bool {
    forall|i: int|
        0 <= i < steps.len() ==> (#[trigger] steps[i]).record_spec() == (StepRecord::Pointer {
            window,
        })
}

/// Whether no answer to steps counts for a pointer.
pub open spec fn none_for_pointer(steps: Seq<InputStep>) -> bool {
    forall|i: int|
        0 <= i < steps.len() ==> !((#[trigger] steps[i]).record_spec() is Pointer)
            && !(steps[i].record_spec() is Release)
}

proof fn lemma_all_for_pointer(ids: Seq<u64>, each: spec_fn(u64) -> Seq<InputStep>, window: u64)
    requires
        forall|id: u64| all_for_pointer(#[trigger] each(id), window),
    ensures
        all_for_pointer(steps_for(ids, each), window),
    decreases ids.len(),
{
    if ids.len() > 0 {
        let rest = steps_for(ids.drop_last(), each);
        let last = each(ids.last());
        lemma_all_for_pointer(ids.drop_last(), each, window);
        assert(all_for_pointer(last, window));
        assert forall|i: int| 0 <= i < (rest + last).len() implies (#[trigger] (rest
            + last)[i]).record_spec() == (StepRecord::Pointer { window }) by {
            if i < rest.len() {
                assert((rest + last)[i] == rest[i]);
            } else {
                assert((rest + last)[i] == last[i - rest.len()]);
            }
        }
    }
}

proof fn lemma_none_for_pointer(ids: Seq<u64>, each: spec_fn(u64) -> Seq<InputStep>)
    requires
        forall|id: u64| none_for_pointer(#[trigger] each(id)),
    ensures
        none_for_pointer(steps_for(ids, each)),
    decreases ids.len(),
{
    if ids.len() > 0 {
        let rest = steps_for(ids.drop_last(), each);
        let last = each(ids.last());
        lemma_none_for_pointer(ids.drop_last(), each);
        assert(none_for_pointer(last));
        assert forall|i: int| 0 <= i < (rest + last).len() implies !((#[trigger] (rest
            + last)[i]).record_spec() is Pointer) && !((rest + last)[i].record_spec() is Release) by {
            if i < rest.len() {
                assert((rest + last)[i] == rest[i]);
            } else {
                assert((rest + last)[i] == last[i - rest.len()]);
            }
        }
    }
}

proof fn lemma_recorded_pointer(
    input: InputView,
    window: u64,
    steps: Seq<InputStep>,
    answers: Seq<StepAnswer>,
)
    requires
        all_for_pointer(steps, window),
        steps.len() <= answers.len(),
    ensures
        recorded_all(input, steps, answers).claims.contains(window) <==> input.claims.contains(
            window,
        ) || exists|i: int|
            0 <= i < steps.len() && InputView::claims_pointer((#[trigger] answers[i]).result),
        recorded_all(input, steps, answers).claims.remove(window) == input.claims.remove(window),
        recorded_all(input, steps, answers).wants_keyboard_input == input.wants_keyboard_input,
    decreases steps.len(),
{
    if steps.len() > 0 {
        let rest = steps.drop_last();
        assert(forall|i: int| 0 <= i < rest.len() ==> rest[i] == #[trigger] steps[i]);
        lemma_recorded_pointer(input, window, rest, answers);
        let last = answers[steps.len() - 1];
        assert(steps[steps.len() - 1].record_spec() == (StepRecord::Pointer { window }));
        let before = recorded_all(input, rest, answers);
        let after = recorded_all(input, steps, answers);
        assert(after == before.after_pointer(window, last.result));
        assert(after.claims.remove(window) =~= before.claims.remove(window));
    }
}

proof fn lemma_recorded_other(input: InputView, steps: Seq<InputStep>, answers: Seq<StepAnswer>)
    requires
        none_for_pointer(steps),
    ensures
        recorded_all(input, steps, answers).claims == input.claims,
    decreases steps.len(),
{
    if steps.len() > 0 {
        let rest = steps.drop_last();
        assert(forall|i: int| 0 <= i < rest.len() ==> rest[i] == #[trigger] steps[i]);
        lemma_recorded_other(input, rest, answers);
        assert(!(steps[steps.len() - 1].record_spec() is Pointer));
        assert(!(steps[steps.len() - 1].record_spec() is Release));
    }
}

/// A pointer move, a button, a wheel movement and a file decide the claim on their
/// window anew: once all roots have answered the window is claimed exactly where
/// one of the answers claims it. Claims on other windows and the keyboard are left
/// alone.
pub proof fn law_pointer_input_decides_claim_anew<K: HostTypes>(
    runtime: RuntimeView<K>,
    input: InputView,
    event: HostEvent,
    host: HostAnswers,
    after: RuntimeView<K>,
    input_after: InputView,
    steps: Seq<InputStep>,
    window: u64,
    answers: Seq<StepAnswer>,
)
    requires
        runtime.routes(input, event, host, after, input_after, steps),
        decides_claim(event) == Some(window),
        answers.len() == steps.len(),
    ensures
        recorded_all(input_after, steps, answers).claims.contains(window) <==> exists|i: int|
            0 <= i < answers.len() && InputView::claims_pointer((#[trigger] answers[i]).result),
        recorded_all(input_after, steps, answers).claims.remove(window) == input.claims.remove(
            window,
        ),
        recorded_all(input_after, steps, answers).wants_keyboard_input
            == input.wants_keyboard_input,
{
    match event {
        HostEvent::CursorMoved { position, .. } => {
            let modifiers = runtime.modifiers_in(window);
            let contexts = runtime.contexts;
            lemma_all_for_pointer(
                runtime.ids_at(window, Some(position)),
                |id: u64|
                    seq![
                        InputStep::Pointer {
                            id,
                            claim: Some(window),
                            input: RoutedInput::CursorMove {
                                position,
                                viewport_origin: contexts[id].viewport.min,
                                modifiers,
                            },
                        },
                    ],
                window,
            );
        },
        HostEvent::Button { button, state, .. } => {
            let button_name = mouse_button_spec(button)->0;
            let modifiers = runtime.modifiers_in(window);
            let click_count = runtime.click_count(
                window,
                button,
                state,
                host.now,
                host.click_distance,
            );
            let ids = runtime.ids_at(window, None);
            let down = RootMessage::ButtonDown {
                window,
                button: button_name,
                modifiers,
                click_count,
            };
            let up = RootMessage::ButtonUp { window, button: button_name, modifiers, click_count };
            lemma_all_for_pointer(ids, down.each(), window);
            lemma_all_for_pointer(ids, up.each(), window);
        },
        HostEvent::Wheel { unit, x, y, phase, .. } => {
            let message = RootMessage::Wheel {
                window,
                delta: scroll_delta_spec(unit, x, y),
                modifiers: runtime.modifiers_in(window),
                phase: touch_phase_spec(phase),
            };
            lemma_all_for_pointer(runtime.ids_at(window, None), message.each(), window);
        },
        HostEvent::File(file) => {
            let message = match file {
                FileEvent::Hovered { path, .. } => RootMessage::FileEntered { window, path },
                FileEvent::Dropped { path, .. } => RootMessage::FileDropped { window, path },
                FileEvent::Canceled { .. } => RootMessage::FileExited { window },
            };
            lemma_all_for_pointer(runtime.ids_at(window, None), message.each(), window);
        },
        _ => {},
    }
    lemma_recorded_pointer(input_after, window, steps, answers);
    assert(input_after.claims.remove(window) =~= input.claims.remove(window));
}

/// Once the pointer has left a window the window is not claimed, whatever its roots
/// answered, and its pointer position is forgotten.
pub proof fn law_cursor_left_releases_claim<K: HostTypes>(
    runtime: RuntimeView<K>,
    input: InputView,
    window: u64,
    host: HostAnswers,
    after: RuntimeView<K>,
    input_after: InputView,
    steps: Seq<InputStep>,
    answers: Seq<StepAnswer>,
)
    requires
        runtime.routes(
            input,
            HostEvent::CursorLeft { window },
            host,
            after,
            input_after,
            steps,
        ),
    ensures
        !recorded_all(input_after, steps, answers).claims.contains(window),
        !after.cursor_positions.contains_key(window),
{
    assert(steps.last() == (InputStep::ReleasePointer { window }));
}

/// Keys, text composition and focus never change who owns a pointer.
pub proof fn law_keyboard_input_keeps_claims<K: HostTypes>(
    runtime: RuntimeView<K>,
    input: InputView,
    event: HostEvent,
    host: HostAnswers,
    after: RuntimeView<K>,
    input_after: InputView,
    steps: Seq<InputStep>,
    answers: Seq<StepAnswer>,
)
    requires
        runtime.routes(input, event, host, after, input_after, steps),
        event is Key || event is Ime || event is Focus,
    ensures
        recorded_all(input_after, steps, answers).claims == input.claims,
{
    match event {
        HostEvent::Key(key) => {
            let noted = runtime.keyed(key);
            let ids = noted.keyboard_ids(key.window);
            let modifiers = noted.modifiers_in(key.window);
            let capslock = noted.capslock_in(key.window);
            if is_modifier_key(key.logical_key) {
                lemma_modifier_steps(ids, modifiers, capslock);
            } else if key_name(key.logical_key) is Some {
                assert forall|i: int| 0 <= i < steps.len() implies !((
                #[trigger] steps[i]).record_spec() is Pointer) && !(steps[i].record_spec() is Release) by {
                    assert(is_key_step(steps[i], ids[i], key, modifiers, capslock));
                }
            }
        },
        HostEvent::Ime(ime) => {
            let ids = runtime.keyboard_ids(ime.window_spec());
            assert forall|i: int| 0 <= i < steps.len() implies !((
            #[trigger] steps[i]).record_spec() is Pointer) && !(steps[i].record_spec() is Release) by {
                assert(is_ime_delivery(steps[i], ids[i], ime));
            }
        },
        HostEvent::Focus { window, .. } => {
            lemma_modifier_steps(
                runtime.ids_at(window, None),
                Modifiers::none_spec(),
                Capslock::off_spec(),
            );
        },
        _ => {},
    }
    lemma_recorded_other(input_after, steps, answers);
}

proof fn lemma_modifier_steps(ids: Seq<u64>, modifiers: Modifiers, capslock: Capslock)
    ensures
        none_for_pointer(modifier_steps(ids, modifiers, capslock)),
{
    lemma_none_for_pointer(ids, RootMessage::Keyboard { modifiers, capslock }.each());
}

/// A window that lost the keyboard has no modifiers, no caps lock and no focused
/// root.
pub proof fn law_blur_resets_keyboard<K: HostTypes>(runtime: RuntimeView<K>, window: u64)
    ensures
        !runtime.blurred(window).focus_holds(window),
        runtime.blurred(window).modifiers_in(window) == Modifiers::none_spec(),
        runtime.blurred(window).capslock_in(window) == Capslock::off_spec(),
{
}

/// A press gives the keyboard of its window to the front root under the pointer,
/// whichever roots have a text field.
pub proof fn law_press_takes_keyboard<K: HostTypes>(runtime: RuntimeView<K>, window: u64)
    requires
        ({
            let ids = runtime.ids_at(window, None);
            &&& ids.len() > 0
            &&& runtime.contexts.contains_key(ids.last())
            &&& runtime.contexts[ids.last()].window == Some(window)
        }),
    ensures
        runtime.pressed(
            window,
            ButtonState::Pressed,
            runtime.ids_at(window, None),
        ).keyboard_ids(window) == seq![runtime.ids_at(window, None).last()],
{
}

/// A message about a window reaches the roots shown in that window, and where the
/// pointer position is known only those under it.
pub proof fn law_roots_under_pointer<K: HostTypes>(
    runtime: RuntimeView<K>,
    window: u64,
    position: Option<Point>,
    id: u64,
)
    ensures
        runtime.ids_at(window, position).contains(id) <==> runtime.mapped(window).contains(id)
            && runtime.covers(id, runtime.pointer_at(window, position)),
{
    lemma_ids_at(runtime, window, position, id);
}

/// A pointer that moves to where a window shows no root leaves the window
/// unclaimed, and no root hears of it.
pub proof fn law_leaving_all_roots_releases_claim<K: HostTypes>(
    runtime: RuntimeView<K>,
    input: InputView,
    window: u64,
    position: Point,
    host: HostAnswers,
    after: RuntimeView<K>,
    input_after: InputView,
    steps: Seq<InputStep>,
)
    requires
        runtime.routes(
            input,
            HostEvent::CursorMoved { window, position },
            host,
            after,
            input_after,
            steps,
        ),
        forall|id: u64| #[trigger]
            runtime.mapped(window).contains(id) ==> !runtime.covers(id, Some(position)),
    ensures
        steps.len() == 0,
        !input_after.claims.contains(window),
{
    let ids = runtime.ids_at(window, Some(position));
    if ids.len() > 0 {
        assert(ids.contains(ids[0]));
        law_roots_under_pointer(runtime, window, Some(position), ids[0]);
    }
}

/// Whether a message may change the pointer claim of a window. A pinch belongs to no
/// window of its own.
pub open spec fn touches_claim(event: HostEvent, window: u64) -> bool {
    ||| decides_claim(event) == Some(window)
    ||| event == (HostEvent::CursorLeft { window })
    ||| event is Pinch
}

/// Whether no answer to steps counts for the pointer of a window.
pub open spec fn spares_claim(steps: Seq<InputStep>, window: u64) -> bool {
    forall|i: int|
        0 <= i < steps.len() ==> (#[trigger] steps[i]).record_spec() != (StepRecord::Pointer {
            window,
        }) && steps[i].record_spec() != (StepRecord::Release { window })
}

proof fn lemma_recorded_spares(
    input: InputView,
    window: u64,
    steps: Seq<InputStep>,
    answers: Seq<StepAnswer>,
)
    requires
        spares_claim(steps, window),
    ensures
        recorded_all(input, steps, answers).claims.contains(window) == input.claims.contains(
            window,
        ),
    decreases steps.len(),
{
    if steps.len() > 0 {
        let rest = steps.drop_last();
        assert(forall|i: int| 0 <= i < rest.len() ==> rest[i] == #[trigger] steps[i]);
        lemma_recorded_spares(input, window, rest, answers);
        let last = steps[steps.len() - 1].record_spec();
        assert(last != (StepRecord::Pointer { window }) && last != (StepRecord::Release {
            window,
        }));
    }
}

proof fn lemma_spares_claim(ids: Seq<u64>, each: spec_fn(u64) -> Seq<InputStep>, window: u64)
    requires
        forall|id: u64| spares_claim(#[trigger] each(id), window),
    ensures
        spares_claim(steps_for(ids, each), window),
    decreases ids.len(),
{
    if ids.len() > 0 {
        let rest = steps_for(ids.drop_last(), each);
        let last = each(ids.last());
        lemma_spares_claim(ids.drop_last(), each, window);
        assert(spares_claim(last, window));
        assert forall|i: int| 0 <= i < (rest + last).len() implies (#[trigger] (rest
            + last)[i]).record_spec() != (StepRecord::Pointer { window }) && (rest
            + last)[i].record_spec() != (StepRecord::Release { window }) by {
            if i < rest.len() {
                assert((rest + last)[i] == rest[i]);
            } else {
                assert((rest + last)[i] == last[i - rest.len()]);
            }
        }
    }
}

/// A message that is not about the pointer of a window keeps the claim on it,
/// whatever the roots answer: that holds of the messages of other windows, and of
/// those about the application's activity, closing, moving, the theme, an entering
/// pointer, focus, keys and text composition.
pub proof fn law_unrelated_message_keeps_claim<K: HostTypes>(
    runtime: RuntimeView<K>,
    input: InputView,
    event: HostEvent,
    host: HostAnswers,
    after: RuntimeView<K>,
    input_after: InputView,
    steps: Seq<InputStep>,
    answers: Seq<StepAnswer>,
    window: u64,
)
    requires
        runtime.routes(input, event, host, after, input_after, steps),
        answers.len() == steps.len(),
        !touches_claim(event, window),
    ensures
        recorded_all(input_after, steps, answers).claims.contains(window) == input.claims.contains(
            window,
        ),
{
    let recorded = recorded_all(input_after, steps, answers);
    match event {
        HostEvent::Lifecycle(lifecycle) => {
            let active = lifecycle.is_active_spec();
            let ids = choose|ids: Seq<u64>| #[trigger]
                lists(ids, runtime.contexts.dom()) && steps == active_steps(ids, active);
            lemma_spares_claim(ids, RootMessage::Active { active }.each(), window);
            lemma_recorded_spares(input_after, window, steps, answers);
        },
        HostEvent::CloseRequested { window: closing } => {
            let ids = runtime.ids_at(closing, None);
            lemma_spares_claim(ids, RootMessage::Close { window: closing }.each(), window);
            lemma_recorded_spares(input_after, window, steps, answers);
        },
        HostEvent::Moved { window: moved } => {
            lemma_spares_claim(runtime.ids_at(moved, None), RootMessage::Moved.each(), window);
            lemma_recorded_spares(input_after, window, steps, answers);
        },
        HostEvent::ThemeChanged { window: themed, theme } => {
            let message = RootMessage::Appearance { appearance: window_theme_spec(theme) };
            lemma_spares_claim(runtime.ids_at(themed, None), message.each(), window);
            lemma_recorded_spares(input_after, window, steps, answers);
        },
        HostEvent::CursorEntered { window: entered } => {
            lemma_spares_claim(runtime.ids_at(entered, None), RootMessage::Entered.each(), window);
            lemma_recorded_spares(input_after, window, steps, answers);
        },
        HostEvent::CursorLeft { window: left } => {
            let modifiers = runtime.modifiers_in(left);
            let ids = runtime.ids_at(left, None);
            let message = RootMessage::Left { window: left, modifiers };
            lemma_spares_claim(ids, message.each(), window);
            lemma_recorded_spares(input_after, window, steps, answers);
        },
        HostEvent::Focus { .. } | HostEvent::Key(_) | HostEvent::Ime(_) => {
            law_keyboard_input_keeps_claims(
                runtime,
                input,
                event,
                host,
                after,
                input_after,
                steps,
                answers,
            );
        },
        _ => {
            if let Some(other) = decides_claim(event) {
                law_pointer_input_decides_claim_anew(
                    runtime,
                    input,
                    event,
                    host,
                    after,
                    input_after,
                    steps,
                    other,
                    answers,
                );
                assert(recorded.claims.remove(other).contains(window) == input.claims.remove(
                    other,
                ).contains(window));
            }
        },
    }
}

/// One message of an input pass: how it was routed and how its steps were answered.
#[verifier::reject_recursive_types(K)]
pub struct RoutedMessage<K: HostTypes> {
    /// The message.
    pub event: HostEvent,
    /// What the host found out for it.
    pub host: HostAnswers,
    /// The application before it was routed.
    pub before: RuntimeView<K>,
    /// The application after it was routed.
    pub after: RuntimeView<K>,
    /// Input ownership before it was routed.
    pub input: InputView,
    /// Input ownership after it was routed, before its steps were answered.
    pub input_routed: InputView,
    /// The steps that carry it out.
    pub steps: Seq<InputStep>,
    /// The answers to the steps.
    pub answers: Seq<StepAnswer>,
}

impl<K: HostTypes> RoutedMessage<K> {
    /// Whether the message was routed and all its steps answered.
    pub open spec fn holds(self) -> bool {
        &&& self.before.routes(
            self.input,
            self.event,
            self.host,
            self.after,
            self.input_routed,
            self.steps,
        )
        &&& self.answers.len() == self.steps.len()
    }

    /// Input ownership once its steps were answered.
    pub open spec fn answered(self) -> InputView {
        recorded_all(self.input_routed, self.steps, self.answers)
    }

    /// Whether some dispatch of the message prevented the default.
    pub open spec fn prevents_default(self) -> bool {
        exists|i: int|
            0 <= i < self.steps.len() && is_dispatch(#[trigger] self.steps[i])
                && self.answers[i].result.default_prevented
    }

    /// Whether some answer to the message claims the keyboard.
    pub open spec fn takes_keyboard(self) -> bool {
        exists|i: int|
            0 <= i < self.steps.len() && claims_keyboard(
                (#[trigger] self.steps[i]).record_spec(),
                self.answers[i],
            )
    }
}

/// Input ownership after some messages of a pass.
pub open spec fn after_messages<K: HostTypes>(
    start: InputView,
    messages: Seq<RoutedMessage<K>>,
) -> InputView {
    if messages.len() == 0 {
        start
    } else {
        messages.last().answered()
    }
}

/// Whether messages were routed and answered one after another in a pass that began
/// with some input ownership.
pub open spec fn is_pass<K: HostTypes>(start: InputView, messages: Seq<RoutedMessage<K>>) -> bool {
    forall|i: int|
        0 <= i < messages.len() ==> {
            &&& (#[trigger] messages[i]).holds()
            &&& messages[i].input == after_messages(start, messages.take(i))
            &&& i > 0 ==> messages[i].before == messages[i - 1].after
        }
}

proof fn lemma_pass_prefix<K: HostTypes>(start: InputView, messages: Seq<RoutedMessage<K>>)
    requires
        is_pass(start, messages),
        messages.len() > 0,
    ensures
        is_pass(start, messages.drop_last()),
        messages.last().holds(),
        messages.last().input == after_messages(start, messages.drop_last()),
{
    let rest = messages.drop_last();
    assert(messages[messages.len() - 1] == messages.last());
    assert(messages.take(messages.len() - 1) =~= rest);
    assert forall|i: int| 0 <= i < rest.len() implies {
        &&& (#[trigger] rest[i]).holds()
        &&& rest[i].input == after_messages(start, rest.take(i))
        &&& i > 0 ==> rest[i].before == rest[i - 1].after
    } by {
        assert(rest[i] == messages[i]);
        assert(rest.take(i) =~= messages.take(i));
        if i > 0 {
            assert(rest[i - 1] == messages[i - 1]);
        }
    }
}

proof fn lemma_pass_keeps_claim<K: HostTypes>(
    start: InputView,
    messages: Seq<RoutedMessage<K>>,
    window: u64,
)
    requires
        is_pass(start, messages),
        forall|i: int|
            0 <= i < messages.len() ==> !touches_claim((#[trigger] messages[i]).event, window),
    ensures
        after_messages(start, messages).claims.contains(window) == start.claims.contains(window),
    decreases messages.len(),
{
    if messages.len() > 0 {
        let rest = messages.drop_last();
        let last = messages.last();
        lemma_pass_prefix(start, messages);
        assert(forall|i: int| 0 <= i < rest.len() ==> rest[i] == #[trigger] messages[i]);
        assert(last == messages[messages.len() - 1]);
        lemma_pass_keeps_claim(start, rest, window);
        law_unrelated_message_keeps_claim(
            last.before,
            last.input,
            last.event,
            last.host,
            last.after,
            last.input_routed,
            last.steps,
            last.answers,
            window,
        );
    }
}

/// Over a whole pass of the running application a window that no message is about
/// keeps its claim exactly as long as it shows a root; only windows that show one are
/// claimed, and pointer input is wanted exactly where some window is claimed.
pub proof fn law_pass_keeps_untouched_claims<K: HostTypes>(
    start: InputView,
    messages: Seq<RoutedMessage<K>>,
    accepts_text: bool,
    shown: Set<u64>,
    window: u64,
)
    requires
        is_pass(start.begun(true), messages),
        forall|i: int|
            0 <= i < messages.len() ==> !touches_claim((#[trigger] messages[i]).event, window),
    ensures
        ({
            let end = after_messages(start.begun(true), messages).finished(accepts_text, shown);
            &&& end.claims.contains(window) <==> start.claims.contains(window) && shown.contains(
                window,
            )
            &&& end.claims.subset_of(shown)
            &&& end.wants_pointer_input <==> end.claims != Set::<u64>::empty()
        }),
{
    lemma_pass_keeps_claim(start.begun(true), messages, window);
}

proof fn lemma_routing_keeps_flags<K: HostTypes>(message: RoutedMessage<K>)
    requires
        message.holds(),
    ensures
        message.input_routed.default_prevented == message.input.default_prevented,
        message.input_routed.wants_keyboard_input == message.input.wants_keyboard_input,
{
}

proof fn lemma_message_reports<K: HostTypes>(message: RoutedMessage<K>)
    requires
        message.holds(),
    ensures
        message.answered().default_prevented <==> message.input.default_prevented
            || message.prevents_default(),
        message.answered().wants_keyboard_input <==> message.input.wants_keyboard_input
            || message.takes_keyboard(),
{
    lemma_routing_keeps_flags(message);
    law_answers_accumulate(message.input_routed, message.steps, message.answers);
}

/// Whether some dispatch of a pass prevented the default.
pub open spec fn pass_prevents_default<K: HostTypes>(messages: Seq<RoutedMessage<K>>) -> bool {
    exists|i: int| 0 <= i < messages.len() && (#[trigger] messages[i]).prevents_default()
}

/// Whether some answer of a pass claims the keyboard.
pub open spec fn pass_takes_keyboard<K: HostTypes>(messages: Seq<RoutedMessage<K>>) -> bool {
    exists|i: int| 0 <= i < messages.len() && (#[trigger] messages[i]).takes_keyboard()
}

proof fn lemma_pass_splits<K: HostTypes>(messages: Seq<RoutedMessage<K>>)
    requires
        messages.len() > 0,
    ensures
        pass_prevents_default(messages) <==> pass_prevents_default(messages.drop_last())
            || messages.last().prevents_default(),
        pass_takes_keyboard(messages) <==> pass_takes_keyboard(messages.drop_last())
            || messages.last().takes_keyboard(),
{
    let rest = messages.drop_last();
    let n = messages.len() - 1;
    assert(messages[n] == messages.last());
    assert(forall|i: int| 0 <= i < n ==> rest[i] == #[trigger] messages[i]);
    if pass_prevents_default(rest) {
        let i = choose|i: int| 0 <= i < rest.len() && (#[trigger] rest[i]).prevents_default();
        assert(messages[i].prevents_default());
    }
    if pass_takes_keyboard(rest) {
        let i = choose|i: int| 0 <= i < rest.len() && (#[trigger] rest[i]).takes_keyboard();
        assert(messages[i].takes_keyboard());
    }
    if pass_prevents_default(messages) {
        let i = choose|i: int|
            0 <= i < messages.len() && (#[trigger] messages[i]).prevents_default();
        if i < n {
            assert(rest[i].prevents_default());
        }
    }
    if pass_takes_keyboard(messages) {
        let i = choose|i: int| 0 <= i < messages.len() && (#[trigger] messages[i]).takes_keyboard();
        if i < n {
            assert(rest[i].takes_keyboard());
        }
    }
}

proof fn lemma_pass_reports<K: HostTypes>(start: InputView, messages: Seq<RoutedMessage<K>>)
    requires
        is_pass(start, messages),
    ensures
        after_messages(start, messages).default_prevented <==> start.default_prevented
            || pass_prevents_default(messages),
        after_messages(start, messages).wants_keyboard_input <==> start.wants_keyboard_input
            || pass_takes_keyboard(messages),
    decreases messages.len(),
{
    if messages.len() > 0 {
        lemma_pass_prefix(start, messages);
        lemma_pass_reports(start, messages.drop_last());
        lemma_message_reports(messages.last());
        lemma_pass_splits(messages);
    }
}

/// After a whole pass a prevented default is reported exactly where some dispatch of
/// the pass prevented it, whatever the pass before reported; and the keyboard is
/// wanted exactly where some answer of the pass claims it or a shown root has a text
/// field.
pub proof fn law_pass_reports_its_answers<K: HostTypes>(
    start: InputView,
    messages: Seq<RoutedMessage<K>>,
    accepts_text: bool,
    shown: Set<u64>,
)
    requires
        is_pass(start.begun(true), messages),
    ensures
        ({
            let end = after_messages(start.begun(true), messages).finished(accepts_text, shown);
            &&& end.default_prevented <==> pass_prevents_default(messages)
            &&& end.wants_keyboard_input <==> accepts_text || pass_takes_keyboard(messages)
        }),
{
    lemma_pass_reports(start.begun(true), messages);
}

/// A press reaches the roots under the pointer as a press and a release as a release,
/// one step for each root, back to front, with the button the host named, the
/// modifiers held in the window and the count of the click. A press and only a press
/// gives the front root the keyboard. A button without a name reaches no root.
pub proof fn law_buttons_reach_roots_as_pressed<K: HostTypes>(
    runtime: RuntimeView<K>,
    input: InputView,
    window: u64,
    button: HostMouseButton,
    state: ButtonState,
    host: HostAnswers,
    after: RuntimeView<K>,
    input_after: InputView,
    steps: Seq<InputStep>,
)
    requires
        runtime.routes(
            input,
            HostEvent::Button { window, button, state },
            host,
            after,
            input_after,
            steps,
        ),
    ensures
        button is Other ==> steps.len() == 0 && after == runtime && input_after == input,
        !(button is Other) ==> steps.len() == runtime.ids_at(window, None).len(),
        forall|i: int|
            0 <= i < steps.len() ==> ((#[trigger] steps[i]) matches InputStep::Pointer {
                id,
                claim,
                input: sent,
            } && id == runtime.ids_at(window, None)[i] && claim == Some(window) && {
                let count = runtime.click_count(
                    window,
                    button,
                    state,
                    host.now,
                    host.click_distance,
                );
                match sent {
                    RoutedInput::ButtonDown { button: named, modifiers, click_count } => state is Pressed
                        && mouse_button_spec(button) == Some(named) && modifiers
                        == runtime.modifiers_in(window) && click_count == count,
                    RoutedInput::ButtonUp { button: named, modifiers, click_count } => state is Released
                        && mouse_button_spec(button) == Some(named) && modifiers
                        == runtime.modifiers_in(window) && click_count == count,
                    _ => false,
                }
            }),
        state is Released ==> after == runtime,
        state is Pressed && steps.len() > 0 ==> after.focused_contexts
            == runtime.focused_contexts.insert(window, runtime.ids_at(window, None).last()),
        steps.len() == 0 ==> after.focused_contexts == runtime.focused_contexts,
        after.contexts == runtime.contexts,
        after.window_contexts == runtime.window_contexts,
        after.cursor_positions == runtime.cursor_positions,
        after.modifiers == runtime.modifiers,
{
    if let Some(named) = mouse_button_spec(button) {
        let ids = runtime.ids_at(window, None);
        let modifiers = runtime.modifiers_in(window);
        let click_count = runtime.click_count(
            window,
            button,
            state,
            host.now,
            host.click_distance,
        );
        let down = RootMessage::ButtonDown { window, button: named, modifiers, click_count };
        let up = RootMessage::ButtonUp { window, button: named, modifiers, click_count };
        lemma_one_step_each(ids, down.each());
        lemma_one_step_each(ids, up.each());
    }
}

/// What a press step delivers makes a window hold the button, and what a release step
/// delivers makes it hold none: after a press and a release of a button a window holds
/// no pressed button, whatever it held before.
pub proof fn law_press_and_release_leave_no_button<K: HostTypes>(
    runtime: RuntimeView<K>,
    input: InputView,
    window: u64,
    button: HostMouseButton,
    state: ButtonState,
    host: HostAnswers,
    after: RuntimeView<K>,
    input_after: InputView,
    steps: Seq<InputStep>,
    i: int,
    sent: RoutedInput,
    root: BevyPlatformWindow<K>,
    local: Point,
)
    requires
        runtime.routes(
            input,
            HostEvent::Button { window, button, state },
            host,
            after,
            input_after,
            steps,
        ),
        0 <= i < steps.len(),
        steps[i] matches InputStep::Pointer { input: routed, .. } && routed == sent,
    ensures
        ({
            let noted = root.after_input(
                sent.delivered(root.mouse_position, root.pressed_button, local),
            );
            &&& state is Pressed ==> noted.pressed_button == mouse_button_spec(button)
                && noted.pressed_button is Some
            &&& state is Released ==> noted.pressed_button is None
            &&& noted.mouse_position == root.mouse_position
        }),
{
    law_buttons_reach_roots_as_pressed(
        runtime,
        input,
        window,
        button,
        state,
        host,
        after,
        input_after,
        steps,
    );
}

/// A pointer that moves in a window reaches exactly the roots whose viewport it is in,
/// back to front, each with the host's position and the corner of its own viewport,
/// and is remembered as the window's pointer.
pub proof fn law_moves_reach_roots_under_the_position<K: HostTypes>(
    runtime: RuntimeView<K>,
    input: InputView,
    window: u64,
    position: Point,
    host: HostAnswers,
    after: RuntimeView<K>,
    input_after: InputView,
    steps: Seq<InputStep>,
)
    requires
        runtime.routes(
            input,
            HostEvent::CursorMoved { window, position },
            host,
            after,
            input_after,
            steps,
        ),
    ensures
        steps.len() == runtime.ids_at(window, Some(position)).len(),
        forall|i: int|
            0 <= i < steps.len() ==> ((#[trigger] steps[i]) matches InputStep::Pointer {
                id,
                claim,
                input: RoutedInput::CursorMove { position: at, viewport_origin, modifiers },
            } && id == runtime.ids_at(window, Some(position))[i] && claim == Some(window) && at
                == position && viewport_origin == runtime.contexts[id].viewport.min && modifiers
                == runtime.modifiers_in(window)),
        after.cursor_positions.contains_key(window) && after.cursor_positions[window] == position,
        forall|other: u64|
            other != window ==> (#[trigger] after.cursor_positions.contains_key(other)
                <==> runtime.cursor_positions.contains_key(other)),
        after.ids_at(window, None) == runtime.ids_at(window, Some(position)),
{
    let modifiers = runtime.modifiers_in(window);
    let contexts = runtime.contexts;
    lemma_one_step_each(
        runtime.ids_at(window, Some(position)),
        |id: u64|
            seq![
                InputStep::Pointer {
                    id,
                    claim: Some(window),
                    input: RoutedInput::CursorMove {
                        position,
                        viewport_origin: contexts[id].viewport.min,
                        modifiers,
                    },
                },
            ],
    );
    let now = |id: u64| after.covers(id, after.pointer_at(window, None));
    let then = |id: u64| runtime.covers(id, runtime.pointer_at(window, Some(position)));
    assert(now =~= then);
}

/// A pointer that enters a window tells each root of it that it is hovered, and
/// changes nothing else.
pub proof fn law_entering_hovers_roots<K: HostTypes>(
    runtime: RuntimeView<K>,
    input: InputView,
    window: u64,
    host: HostAnswers,
    after: RuntimeView<K>,
    input_after: InputView,
    steps: Seq<InputStep>,
)
    requires
        runtime.routes(
            input,
            HostEvent::CursorEntered { window },
            host,
            after,
            input_after,
            steps,
        ),
    ensures
        steps.len() == runtime.ids_at(window, None).len(),
        forall|i: int|
            0 <= i < steps.len() ==> (#[trigger] steps[i]) == (InputStep::SetHovered {
                id: runtime.ids_at(window, None)[i],
                hovered: true,
            }),
        after == runtime,
        input_after == input,
{
    lemma_one_step_each(runtime.ids_at(window, None), RootMessage::Entered.each());
}

/// A pointer that leaves a window tells each root under it that it is not hovered any
/// more and then that the pointer left, and at the end drops the claim on the window.
pub proof fn law_leaving_tells_roots_and_drops_claim<K: HostTypes>(
    runtime: RuntimeView<K>,
    input: InputView,
    window: u64,
    host: HostAnswers,
    after: RuntimeView<K>,
    input_after: InputView,
    steps: Seq<InputStep>,
)
    requires
        runtime.routes(
            input,
            HostEvent::CursorLeft { window },
            host,
            after,
            input_after,
            steps,
        ),
    ensures
        steps.len() == 2 * runtime.ids_at(window, None).len() + 1,
        steps.last() == (InputStep::ReleasePointer { window }),
        forall|i: int|
            0 <= i < runtime.ids_at(window, None).len() ==> {
                let id = #[trigger] runtime.ids_at(window, None)[i];
                &&& steps[2 * i] == (InputStep::SetHovered { id, hovered: false })
                &&& steps[2 * i + 1] == (InputStep::Pointer {
                    id,
                    claim: Some(window),
                    input: RoutedInput::CursorExit { modifiers: runtime.modifiers_in(window) },
                })
            },
        forall|other: u64| #[trigger]
            after.cursor_positions.contains_key(other) <==> other != window
                && runtime.cursor_positions.contains_key(other),
{
    let ids = runtime.ids_at(window, None);
    let message = RootMessage::Left { window, modifiers: runtime.modifiers_in(window) };
    lemma_two_steps_each(ids, message.each());
    assert forall|i: int| 0 <= i < ids.len() implies {
        let id = #[trigger] ids[i];
        &&& steps[2 * i] == (InputStep::SetHovered { id, hovered: false })
        &&& steps[2 * i + 1] == (InputStep::Pointer {
            id,
            claim: Some(window),
            input: RoutedInput::CursorExit { modifiers: runtime.modifiers_in(window) },
        })
    } by {
        let told = steps_for(ids, message.each());
        assert(steps[2 * i] == told[2 * i]);
        assert(steps[2 * i + 1] == told[2 * i + 1]);
    }
}

/// A request to close a window asks each root of it, with the window it is about, and
/// closes nothing itself.
pub proof fn law_close_requests_ask_roots<K: HostTypes>(
    runtime: RuntimeView<K>,
    input: InputView,
    window: u64,
    host: HostAnswers,
    after: RuntimeView<K>,
    input_after: InputView,
    steps: Seq<InputStep>,
)
    requires
        runtime.routes(
            input,
            HostEvent::CloseRequested { window },
            host,
            after,
            input_after,
            steps,
        ),
    ensures
        steps.len() == runtime.ids_at(window, None).len(),
        forall|i: int|
            0 <= i < steps.len() ==> (#[trigger] steps[i]) == (InputStep::AskClose {
                id: runtime.ids_at(window, None)[i],
                window,
            }),
        after == runtime,
        input_after == input,
{
    lemma_one_step_each(runtime.ids_at(window, None), RootMessage::Close { window }.each());
}

/// A window that moved tells each root of it.
pub proof fn law_moved_windows_tell_roots<K: HostTypes>(
    runtime: RuntimeView<K>,
    input: InputView,
    window: u64,
    host: HostAnswers,
    after: RuntimeView<K>,
    input_after: InputView,
    steps: Seq<InputStep>,
)
    requires
        runtime.routes(
            input,
            HostEvent::Moved { window },
            host,
            after,
            input_after,
            steps,
        ),
    ensures
        steps.len() == runtime.ids_at(window, None).len(),
        forall|i: int|
            0 <= i < steps.len() ==> (#[trigger] steps[i]) == (InputStep::NotifyMoved {
                id: runtime.ids_at(window, None)[i],
            }),
        after == runtime,
        input_after == input,
{
    lemma_one_step_each(runtime.ids_at(window, None), RootMessage::Moved.each());
}

/// A window whose theme changed gives each root of it the appearance of that theme:
/// dark for dark, light for light.
pub proof fn law_themes_become_appearances<K: HostTypes>(
    runtime: RuntimeView<K>,
    input: InputView,
    window: u64,
    theme: WindowTheme,
    host: HostAnswers,
    after: RuntimeView<K>,
    input_after: InputView,
    steps: Seq<InputStep>,
)
    requires
        runtime.routes(
            input,
            HostEvent::ThemeChanged { window, theme },
            host,
            after,
            input_after,
            steps,
        ),
    ensures
        steps.len() == runtime.ids_at(window, None).len(),
        forall|i: int|
            0 <= i < steps.len() ==> ((#[trigger] steps[i]) matches InputStep::SetAppearance {
                id,
                appearance,
            } && id == runtime.ids_at(window, None)[i] && (appearance is Dark <==> theme is Dark)),
        after == runtime,
        input_after == input,
{
    let message = RootMessage::Appearance { appearance: window_theme_spec(theme) };
    lemma_one_step_each(runtime.ids_at(window, None), message.each());
}

/// A change of the application's lifecycle reaches every root once, shown or not, and
/// tells it whether the application is active; the runtime remembers the same.
pub proof fn law_lifecycle_reaches_every_root<K: HostTypes>(
    runtime: RuntimeView<K>,
    input: InputView,
    lifecycle: AppLifecycle,
    host: HostAnswers,
    after: RuntimeView<K>,
    input_after: InputView,
    steps: Seq<InputStep>,
)
    requires
        runtime.routes(
            input,
            HostEvent::Lifecycle(lifecycle),
            host,
            after,
            input_after,
            steps,
        ),
    ensures
        steps.len() == runtime.contexts.dom().len(),
        forall|id: u64|
            runtime.contexts.contains_key(id) ==> exists|i: int|
                0 <= i < steps.len() && (#[trigger] steps[i]) == (InputStep::SetActive {
                    id,
                    active: after.application_active,
                }),
        forall|i: int|
            0 <= i < steps.len() ==> ((#[trigger] steps[i]) matches InputStep::SetActive {
                id,
                active,
            } && runtime.contexts.contains_key(id) && active == !(lifecycle is Idle
                || lifecycle is Suspended)),
        after.application_active == !(lifecycle is Idle || lifecycle is Suspended),
        after == (RuntimeView::<K> { application_active: after.application_active, ..runtime }),
        input_after == input,
{
    let active = lifecycle.is_active_spec();
    let ids = choose|ids: Seq<u64>| #[trigger]
        lists(ids, runtime.contexts.dom()) && steps == active_steps(ids, active);
    lemma_one_step_each(ids, RootMessage::Active { active }.each());
    ids.unique_seq_to_set();
    assert forall|id: u64| runtime.contexts.contains_key(id) implies exists|i: int|
        0 <= i < steps.len() && (#[trigger] steps[i]) == (InputStep::SetActive {
            id,
            active: after.application_active,
        }) by {
        assert(ids.to_set().contains(id));
        let i = choose|i: int| 0 <= i < ids.len() && ids[i] == id;
        assert(steps[i] == (InputStep::SetActive { id, active }));
    }
    assert forall|i: int| 0 <= i < steps.len() implies ((#[trigger] steps[i]) matches InputStep::SetActive {
        id,
        active,
    } && runtime.contexts.contains_key(id) && active == !(lifecycle is Idle
        || lifecycle is Suspended)) by {
        assert(ids.to_set().contains(ids[i]));
    }
}

/// A window that lost the keyboard tells each root under the pointer, first by the
/// state it reports and then by an event, that no modifier is held and caps lock is
/// off; a window that gained it tells nobody.
pub proof fn law_lost_keyboards_are_told<K: HostTypes>(
    runtime: RuntimeView<K>,
    input: InputView,
    window: u64,
    focused: bool,
    host: HostAnswers,
    after: RuntimeView<K>,
    input_after: InputView,
    steps: Seq<InputStep>,
)
    requires
        runtime.routes(
            input,
            HostEvent::Focus { window, focused },
            host,
            after,
            input_after,
            steps,
        ),
    ensures
        focused ==> steps.len() == 0 && after == runtime,
        !focused ==> steps.len() == 2 * runtime.ids_at(window, None).len(),
        !focused ==> forall|i: int|
            0 <= i < runtime.ids_at(window, None).len() ==> {
                let id = #[trigger] runtime.ids_at(window, None)[i];
                let held = Modifiers {
                    control: false,
                    alt: false,
                    shift: false,
                    platform: false,
                    function: false,
                };
                let locked = Capslock { on: false };
                &&& steps[2 * i] == (InputStep::SetKeyboard {
                    id,
                    modifiers: held,
                    capslock: locked,
                })
                &&& steps[2 * i + 1] == (InputStep::Keyboard {
                    id,
                    input: RoutedInput::ModifiersChanged { modifiers: held, capslock: locked },
                })
            },
        !focused ==> !after.focused_contexts.contains_key(window) && !after.modifiers.contains_key(
            window,
        ) && !after.capslock.contains_key(window),
        forall|other: u64|
            #![trigger after.focused_contexts.contains_key(other)]
            #![trigger after.modifiers_in(other)]
            other != window ==> (after.focused_contexts.contains_key(other)
                <==> runtime.focused_contexts.contains_key(other)) && after.modifiers_in(other)
                == runtime.modifiers_in(other) && after.capslock_in(other)
                == runtime.capslock_in(other),
        input_after == input,
{
    let message = RootMessage::Keyboard {
        modifiers: Modifiers::none_spec(),
        capslock: Capslock::off_spec(),
    };
    lemma_two_steps_each(runtime.ids_at(window, None), message.each());
}

/// A wheel movement reaches the roots under the pointer, back to front, with its
/// amounts on their own axes, counted as the host counts them, under the modifiers of
/// the window; a canceled gesture arrives as an ended one.
pub proof fn law_wheels_reach_roots_under_the_pointer<K: HostTypes>(
    runtime: RuntimeView<K>,
    input: InputView,
    window: u64,
    unit: ScrollUnit,
    x: Scalar,
    y: Scalar,
    phase: HostTouchPhase,
    host: HostAnswers,
    after: RuntimeView<K>,
    input_after: InputView,
    steps: Seq<InputStep>,
)
    requires
        runtime.routes(
            input,
            HostEvent::Wheel { window, unit, x, y, phase },
            host,
            after,
            input_after,
            steps,
        ),
    ensures
        steps.len() == runtime.ids_at(window, None).len(),
        forall|i: int|
            0 <= i < steps.len() ==> ((#[trigger] steps[i]) matches InputStep::Pointer {
                id,
                claim,
                input: RoutedInput::Wheel { delta, modifiers, phase: told },
            } && id == runtime.ids_at(window, None)[i] && claim == Some(window) && modifiers
                == runtime.modifiers_in(window) && delta == (if unit is Line {
                ScrollDelta::Lines(Point { x, y })
            } else {
                ScrollDelta::Pixels(Point { x, y })
            }) && (told is Started <==> phase is Started) && (told is Moved <==> phase is Moved)),
        after == runtime,
{
    let message = RootMessage::Wheel {
        window,
        delta: scroll_delta_spec(unit, x, y),
        modifiers: runtime.modifiers_in(window),
        phase: touch_phase_spec(phase),
    };
    lemma_one_step_each(runtime.ids_at(window, None), message.each());
}

/// A pinch reaches each of its roots with the amount it had, under the modifiers of
/// the window the root is bound to; the answer counts for that window.
pub proof fn law_pinches_reach_their_roots<K: HostTypes>(
    runtime: RuntimeView<K>,
    input: InputView,
    amount: Scalar,
    host: HostAnswers,
    after: RuntimeView<K>,
    input_after: InputView,
    steps: Seq<InputStep>,
)
    requires
        runtime.routes(
            input,
            HostEvent::Pinch { amount },
            host,
            after,
            input_after,
            steps,
        ),
    ensures
        exists|ids: Seq<u64>| #[trigger]
            runtime.are_pinch_targets(ids) && steps.len() == ids.len() && forall|i: int|
                0 <= i < steps.len() ==> ((#[trigger] steps[i]) matches InputStep::Pointer {
                    id,
                    claim,
                    input: RoutedInput::Pinch { amount: told, modifiers },
                } && id == ids[i] && told == amount && (runtime.contexts.contains_key(id) ==> claim
                    == runtime.contexts[id].window) && modifiers == (match claim {
                    Some(window) => runtime.modifiers_in(window),
                    None => Modifiers::none_spec(),
                })),
        after == runtime,
        input_after == input,
{
    let ids = choose|ids: Seq<u64>| #[trigger]
        runtime.are_pinch_targets(ids) && steps == runtime.pinch_steps(ids, amount);
    lemma_one_step_each(
        ids,
        |id: u64|
            seq![
                InputStep::Pointer {
                    id,
                    claim: runtime.claim_of(id),
                    input: RoutedInput::Pinch { amount, modifiers: runtime.modifiers_for(id) },
                },
            ],
    );
    assert(runtime.are_pinch_targets(ids));
}

/// A file over a window enters each root under the pointer, a dropped file enters each
/// and is submitted to it right after, and a file taken away leaves each. The path
/// arrives as it was.
pub proof fn law_files_reach_roots_under_the_pointer<K: HostTypes>(
    runtime: RuntimeView<K>,
    input: InputView,
    file: FileEvent,
    host: HostAnswers,
    after: RuntimeView<K>,
    input_after: InputView,
    steps: Seq<InputStep>,
)
    requires
        runtime.routes(
            input,
            HostEvent::File(file),
            host,
            after,
            input_after,
            steps,
        ),
    ensures
        file matches FileEvent::Hovered { window, path } ==> {
            let ids = runtime.ids_at(window, None);
            &&& steps.len() == ids.len()
            &&& forall|i: int|
                0 <= i < ids.len() ==> #[trigger] steps[i] == (InputStep::Pointer {
                    id: ids[i],
                    claim: Some(window),
                    input: RoutedInput::FileEntered { path },
                })
            &&& input_after == input.released(window)
        },
        file matches FileEvent::Dropped { window, path } ==> {
            let ids = runtime.ids_at(window, None);
            &&& steps.len() == 2 * ids.len()
            &&& forall|i: int|
                0 <= i < ids.len() ==> {
                    let id = #[trigger] ids[i];
                    &&& steps[2 * i] == (InputStep::Pointer {
                        id,
                        claim: Some(window),
                        input: RoutedInput::FileEntered { path },
                    })
                    &&& steps[2 * i + 1] == (InputStep::Pointer {
                        id,
                        claim: Some(window),
                        input: RoutedInput::FileSubmit,
                    })
                }
            &&& input_after == input.released(window)
        },
        file matches FileEvent::Canceled { window } ==> {
            let ids = runtime.ids_at(window, None);
            &&& steps.len() == ids.len()
            &&& forall|i: int|
                0 <= i < ids.len() ==> #[trigger] steps[i] == (InputStep::Pointer {
                    id: ids[i],
                    claim: Some(window),
                    input: RoutedInput::FileExited,
                })
            &&& input_after == input.released(window)
        },
        after == runtime,
{
    match file {
        FileEvent::Hovered { window, path } => lemma_one_step_each(
            runtime.ids_at(window, None),
            RootMessage::FileEntered { window, path }.each(),
        ),
        FileEvent::Dropped { window, path } => lemma_two_steps_each(
            runtime.ids_at(window, None),
            RootMessage::FileDropped { window, path }.each(),
        ),
        FileEvent::Canceled { window } => lemma_one_step_each(
            runtime.ids_at(window, None),
            RootMessage::FileExited { window }.each(),
        ),
    }
}

/// A modifier key tells the root that has the window's keyboard, first by the state it
/// reports and then by an event, which modifiers are held once the key counts. Any
/// other key changes neither modifiers nor caps lock.
pub proof fn law_modifier_keys_tell_the_keyboard<K: HostTypes>(
    runtime: RuntimeView<K>,
    input: InputView,
    key: KeyEvent,
    host: HostAnswers,
    after: RuntimeView<K>,
    input_after: InputView,
    steps: Seq<InputStep>,
)
    requires
        runtime.routes(
            input,
            HostEvent::Key(key),
            host,
            after,
            input_after,
            steps,
        ),
    ensures
        is_modifier_key(key.logical_key) ==> steps.len() == 2 * runtime.keyboard_ids(
            key.window,
        ).len() && forall|i: int|
            0 <= i < runtime.keyboard_ids(key.window).len() ==> {
                let id = #[trigger] runtime.keyboard_ids(key.window)[i];
                let modifiers = after.modifiers_in(key.window);
                let capslock = after.capslock_in(key.window);
                &&& steps[2 * i] == (InputStep::SetKeyboard { id, modifiers, capslock })
                &&& steps[2 * i + 1] == (InputStep::Keyboard {
                    id,
                    input: RoutedInput::ModifiersChanged { modifiers, capslock },
                })
            },
        after.modifiers.contains_key(key.window) && after.modifiers[key.window] == modifiers_after(
            key.logical_key,
            key.state,
            runtime.modifiers_in(key.window),
        ),
        after.capslock.contains_key(key.window) && after.capslock[key.window] == capslock_after(
            key.logical_key,
            key.state,
            runtime.capslock_in(key.window),
        ),
        !is_modifier_key(key.logical_key) ==> after.modifiers_in(key.window)
            == runtime.modifiers_in(key.window) && after.capslock_in(key.window)
            == runtime.capslock_in(key.window),
        forall|other: u64|
            #![trigger after.modifiers_in(other)]
            #![trigger after.capslock_in(other)]
            other != key.window ==> after.modifiers_in(other) == runtime.modifiers_in(other)
                && after.capslock_in(other) == runtime.capslock_in(other),
        after == (RuntimeView::<K> {
            modifiers: after.modifiers,
            capslock: after.capslock,
            ..runtime
        }),
        input_after == input,
{
    let message = RootMessage::Keyboard {
        modifiers: after.modifiers_in(key.window),
        capslock: after.capslock_in(key.window),
    };
    assert(after.keyboard_ids(key.window) == runtime.keyboard_ids(key.window));
    lemma_two_steps_each(runtime.keyboard_ids(key.window), message.each());
}

/// A key that is no modifier reaches the root that has the window's keyboard under its
/// name, with the modifiers and caps lock of the window, the name of its place on the
/// keyboard, the text it produced and, where it produced none, the text it stands for.
/// A key without a name reaches nobody.
pub proof fn law_keys_reach_the_keyboard<K: HostTypes>(
    runtime: RuntimeView<K>,
    input: InputView,
    key: KeyEvent,
    host: HostAnswers,
    after: RuntimeView<K>,
    input_after: InputView,
    steps: Seq<InputStep>,
)
    requires
        runtime.routes(
            input,
            HostEvent::Key(key),
            host,
            after,
            input_after,
            steps,
        ),
        !is_modifier_key(key.logical_key),
    ensures
        key_name(key.logical_key) is None ==> steps.len() == 0,
        key_name(key.logical_key) is Some ==> steps.len() == runtime.keyboard_ids(key.window).len(),
        forall|i: int|
            0 <= i < steps.len() ==> ((#[trigger] steps[i]) matches InputStep::Key {
                id,
                capslock,
                press,
            } && id == runtime.keyboard_ids(key.window)[i] && capslock == runtime.capslock_in(
                key.window,
            ) && press.keystroke.modifiers == runtime.modifiers_in(key.window) && key_name(
                key.logical_key,
            ) == Some(press.keystroke.key@) && press.state == key.state && press.is_held
                == key.repeat && (press.keystroke.physical_key matches Some(place) && place@
                == ascii_lowercase(key.key_code@)) && (match key.text {
                Some(text) => (press.text matches Some(inserted) && inserted@ == text@) && (
                press.keystroke.key_char matches Some(shown) && shown@ == text@),
                None => press.text is None && (match key.logical_key {
                    LogicalKey::Character(text) => press.keystroke.key_char matches Some(shown)
                        && shown@ == text@,
                    _ => press.keystroke.key_char is None,
                }),
            })),
{
    let ids = runtime.keyboard_ids(key.window);
    assert(after.keyboard_ids(key.window) == ids);
    if key_name(key.logical_key) is Some {
        assert forall|i: int| 0 <= i < steps.len() implies is_key_step(
            #[trigger] steps[i],
            ids[i],
            key,
            runtime.modifiers_in(key.window),
            runtime.capslock_in(key.window),
        ) by {
            assert(is_key_step(
                steps[i],
                ids[i],
                key,
                after.modifiers_in(key.window),
                after.capslock_in(key.window),
            ));
        }
    }
}

/// A step of composition reaches the root that has the window's keyboard with its text
/// as it was. The cursor arrives exactly where both its ends fall between characters,
/// as the numbers of UTF-16 units before them.
pub proof fn law_composition_reaches_the_keyboard<K: HostTypes>(
    runtime: RuntimeView<K>,
    input: InputView,
    ime: ImeEvent,
    window: u64,
    host: HostAnswers,
    after: RuntimeView<K>,
    input_after: InputView,
    steps: Seq<InputStep>,
)
    requires
        runtime.routes(
            input,
            HostEvent::Ime(ime),
            host,
            after,
            input_after,
            steps,
        ),
        match ime {
            ImeEvent::Preedit { window: of, .. } => window == of,
            ImeEvent::Commit { window: of, .. } => window == of,
            ImeEvent::Enabled { window: of } => window == of,
            ImeEvent::Disabled { window: of } => window == of,
        },
    ensures
        steps.len() == runtime.keyboard_ids(window).len(),
        forall|i: int|
            0 <= i < steps.len() ==> ((#[trigger] steps[i]) matches InputStep::Ime { id, step }
                && id == runtime.keyboard_ids(window)[i] && match ime {
                ImeEvent::Preedit { value, cursor, .. } => step matches ImeStep::Preedit {
                    value: shown,
                    selected,
                } && shown@ == value@ && match (cursor, selected) {
                    (None, None) => true,
                    (None, Some(_)) => false,
                    (Some((start, end)), None) => utf16_range(value@, start as int, end as int) is None,
                    (Some((start, end)), Some(range)) => exists|first: int, last: int|
                        #![trigger value@.take(first), value@.take(last)]
                        0 <= first <= last <= value@.len() && start == encode_utf8(
                            value@.take(first),
                        ).len() && end == encode_utf8(value@.take(last)).len() && range.start
                            == encode_utf16(value@.take(first)).len() && range.end == encode_utf16(
                            value@.take(last),
                        ).len(),
                },
                ImeEvent::Commit { value, .. } => step matches ImeStep::Commit { value: text }
                    && text@ == value@,
                ImeEvent::Enabled { .. } => step is Enabled,
                ImeEvent::Disabled { .. } => step is Disabled,
            }),
        after == runtime,
        input_after == input,
{
    let ids = runtime.keyboard_ids(window);
    assert forall|i: int| 0 <= i < steps.len() implies is_ime_delivery(
        #[trigger] steps[i],
        ids[i],
        ime,
    ) by {
        assert(is_ime_delivery(steps[i], ids[i], ime));
    }
    if let ImeEvent::Preedit { value, cursor: Some((start, end)), .. } = ime {
        if let Some(range) = utf16_range(value@, start as int, end as int) {
            law_range_converts_between_characters(value@, start as int, end as int, range);
        }
    }
}

/// The keyboard of a window goes to the root clicked last in it while that root is
/// shown there, and otherwise to the window's front root: a press on a root sends the
/// keys that follow to it, until another root is pressed, the window loses the keyboard
/// or the root leaves the window.
pub proof fn law_keys_follow_the_press<K: HostTypes>(
    runtime: RuntimeView<K>,
    input: InputView,
    window: u64,
    button: HostMouseButton,
    host: HostAnswers,
    after: RuntimeView<K>,
    input_after: InputView,
    steps: Seq<InputStep>,
    id: u64,
)
    requires
        runtime.routes(
            input,
            HostEvent::Button { window, button, state: ButtonState::Pressed },
            host,
            after,
            input_after,
            steps,
        ),
        !(button is Other),
        runtime.ids_at(window, None).len() > 0,
        runtime.ids_at(window, None).last() == id,
        runtime.contexts.contains_key(id),
        runtime.contexts[id].window == Some(window),
    ensures
        after.keyboard_ids(window) == seq![id],
        forall|other: u64|
            other != window ==> #[trigger] after.keyboard_ids(other) == runtime.keyboard_ids(other),
{
}

/// The host is asked for the way from one press to the next exactly where a button goes
/// down that went down in the same window before, and then from there to the pointer.
pub proof fn law_distance_is_asked_between_presses<K: HostTypes>(
    runtime: GpuiRuntime<K>,
    window: u64,
    button: HostMouseButton,
    state: ButtonState,
    event: HostEvent,
    query: Option<(Point, Point)>,
)
    requires
        event == (HostEvent::Button { window, button, state }),
        call_ensures(GpuiRuntime::<K>::click_query, (&runtime, &event), query),
    ensures
        query is Some <==> state is Pressed && runtime@.clicks.contains_key(
            click_key_spec(window, button),
        ),
        query matches Some((from, to)) ==> from == runtime@.clicks[click_key_spec(
            window,
            button,
        )].position && to == runtime@.cursor_in(window),
{
}

} // verus!
