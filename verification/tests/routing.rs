use bevy_gpui::geometry::{Bounds, Point, Rect, Size};
use bevy_gpui::host::HostTypes;
use bevy_gpui::input::{
    AppLifecycle, DispatchEventResult, HostMouseButton, HostTouchPhase, ImeEvent, KeyEvent,
    MouseButton, PlatformInput, RoutedInput, ScrollDelta, ScrollUnit, TouchPhase,
    WindowAppearance, WindowTheme,
};
use bevy_gpui::keys::{ButtonState, Capslock, LogicalKey, Modifiers};
use bevy_gpui::platform::BevyPlatform;
use bevy_gpui::routing::HostAnswers;
use bevy_gpui::runtime::{click_key, ContextBinding, GpuiRuntime, OpenOutcome};
use bevy_gpui::scalar::Scalar;
use bevy_gpui::steps::{
    record_answer, FileEvent, HostEvent, ImeStep, InputMessages, InputStep, StepAnswer,
};
use bevy_gpui::sync::{bind_cameras, CameraBinding};
use bevy_gpui::GpuiInputState;
use std::path::PathBuf;
use std::rc::Rc;
use std::sync::Arc;

struct Host;

impl HostTypes for Host {
    type Handle = u32;
    type Display = ();
    type Atlas = ();
    type Snapshot = ();
    type InputHandler = ();
    type FrameCallback = ();
    type InputCallback = ();
    type FlagCallback = ();
    type ResizeCallback = ();
    type UnitCallback = ();
    type ShouldCloseCallback = ();
    type CloseCallback = ();
    type HitTestCallback = ();
    type ClipboardItem = ();
    type RootFactory = ();
}

const WINDOW: u64 = 50;
const OTHER: u64 = 60;

fn scalar(value: f32) -> Scalar {
    Scalar { bits: value.to_bits() }
}

fn point(x: f32, y: f32) -> Point {
    Point { x: scalar(x), y: scalar(y) }
}

fn rect(x0: f32, y0: f32, x1: f32, y1: f32) -> Rect {
    Rect { min: point(x0, y0), max: point(x1, y1) }
}

fn answers() -> HostAnswers {
    HostAnswers { now: 0, click_distance: scalar(0.0) }
}

fn hit() -> DispatchEventResult {
    DispatchEventResult { propagate: true, default_prevented: false, pointer_hit: true }
}

fn missed() -> DispatchEventResult {
    DispatchEventResult { propagate: true, default_prevented: false, pointer_hit: false }
}

fn reply(result: DispatchEventResult) -> StepAnswer {
    StepAnswer { result, handled: false }
}

/// Roots 1 and 2 cover the left and right half of a window, root 3 all of it from
/// behind, and root 4 is in another window.
fn runtime() -> GpuiRuntime<Host> {
    let mut runtime = GpuiRuntime::new();
    let mut platform = BevyPlatform::<Host>::new(Arc::new(()), Rc::new(()));
    for id in 1..=4 {
        runtime.begin_open_root(&mut platform, id).unwrap();
        let opened = platform.open_window(
            id as u32,
            Bounds {
                origin: point(0.0, 0.0),
                size: Size { width: scalar(1.0), height: scalar(1.0) },
            },
        );
        assert_eq!(opened, Ok(id));
        assert!(runtime.finish_open_root(&mut platform, id, OpenOutcome::Opened(id as u32)));
    }
    let camera = |id, window, viewport, order| CameraBinding {
        id,
        binding: ContextBinding { window: Some(window), viewport, order },
    };
    bind_cameras(
        &mut runtime,
        &vec![
            camera(1, WINDOW, rect(0.0, 0.0, 50.0, 100.0), 1),
            camera(2, WINDOW, rect(50.0, 0.0, 100.0, 100.0), 1),
            camera(3, WINDOW, rect(0.0, 0.0, 100.0, 100.0), 0),
            camera(4, OTHER, rect(0.0, 0.0, 100.0, 100.0), 0),
        ],
    );
    runtime
}

fn targets(steps: &[InputStep]) -> Vec<u64> {
    steps
        .iter()
        .filter_map(|step| match step {
            InputStep::Pointer { id, .. }
            | InputStep::Keyboard { id, .. }
            | InputStep::Key { id, .. }
            | InputStep::Ime { id, .. } => Some(*id),
            _ => None,
        })
        .collect()
}

#[test]
fn messages_are_routed_kind_by_kind() {
    let moved = |x| HostEvent::CursorMoved { window: WINDOW, position: point(x, 0.0) };
    let messages = InputMessages {
        lifecycle: vec![HostEvent::Lifecycle(AppLifecycle::Running)],
        close_requested: vec![],
        moved: vec![],
        theme_changed: vec![],
        cursors: vec![moved(1.0), moved(2.0)],
        cursor_entered: vec![],
        cursor_left: vec![HostEvent::CursorLeft { window: WINDOW }],
        window_focus: vec![],
        buttons: vec![HostEvent::Button {
            window: WINDOW,
            button: HostMouseButton::Left,
            state: ButtonState::Pressed,
        }],
        wheels: vec![],
        pinches: vec![HostEvent::Pinch { amount: scalar(1.0) }],
        files: vec![],
        keys: vec![],
        ime: vec![HostEvent::Ime(ImeEvent::Enabled { window: WINDOW })],
    };
    let events = messages.in_order();
    assert_eq!(events.len(), 7);
    assert!(matches!(events[0], HostEvent::Lifecycle(_)));
    match (&events[1], &events[2]) {
        (
            HostEvent::CursorMoved { position: first, .. },
            HostEvent::CursorMoved { position: second, .. },
        ) => assert_eq!((*first, *second), (point(1.0, 0.0), point(2.0, 0.0))),
        _ => panic!("moves keep their order"),
    }
    assert!(matches!(events[3], HostEvent::CursorLeft { .. }));
    assert!(matches!(events[4], HostEvent::Button { .. }));
    assert!(matches!(events[5], HostEvent::Pinch { .. }));
    assert!(matches!(events[6], HostEvent::Ime(_)));
}

#[test]
fn moves_reach_the_roots_under_the_pointer_back_to_front() {
    let mut runtime = runtime();
    let mut input = GpuiInputState::default();
    let event = HostEvent::CursorMoved { window: WINDOW, position: point(70.0, 5.0) };
    let steps = runtime.route_event(&event, &answers(), &mut input);
    assert_eq!(targets(&steps), vec![3, 2]);
    match &steps[1] {
        InputStep::Pointer {
            claim,
            input: RoutedInput::CursorMove { position, viewport_origin, .. },
            ..
        } => {
            assert_eq!(*claim, Some(WINDOW));
            assert_eq!(*position, point(70.0, 5.0));
            assert_eq!(*viewport_origin, point(50.0, 0.0));
        }
        _ => panic!("a move is pointer input"),
    }
    assert_eq!(runtime.cursor_in(WINDOW), point(70.0, 5.0));
    assert_eq!(runtime.context_ids_at(WINDOW, None), vec![3, 2]);
    assert_eq!(runtime.context_ids_at(WINDOW, Some(point(50.0, 100.0))), vec![3, 1, 2]);
    assert_eq!(runtime.context_ids_at(OTHER, None), vec![4]);
    assert!(runtime.context_ids_at(77, None).is_empty());
}

#[test]
fn a_move_decides_the_claim_anew() {
    let mut runtime = runtime();
    let mut input = GpuiInputState::default();
    for (result, claimed) in [(hit(), true), (missed(), false)] {
        let event = HostEvent::CursorMoved { window: WINDOW, position: point(10.0, 10.0) };
        let steps = runtime.route_event(&event, &answers(), &mut input);
        assert!(!input.claims_window(WINDOW));
        for step in &steps {
            record_answer(step.record(), reply(result), &mut input);
        }
        assert_eq!(input.claims_window(WINDOW), claimed);
    }
}

#[test]
fn a_window_that_was_left_is_not_claimed() {
    let mut runtime = runtime();
    let mut input = GpuiInputState::default();
    let steps = runtime.route_event(
        &HostEvent::CursorLeft { window: WINDOW },
        &answers(),
        &mut input,
    );
    assert_eq!(steps.len(), 7);
    assert!(matches!(steps[0], InputStep::SetHovered { id: 3, hovered: false }));
    for step in &steps {
        record_answer(step.record(), reply(hit()), &mut input);
    }
    assert!(!input.claims_window(WINDOW));
    assert_eq!(runtime.cursor_in(WINDOW), point(0.0, 0.0));
}

#[test]
fn window_messages_become_notices_to_its_roots() {
    let mut runtime = runtime();
    let mut input = GpuiInputState::default();
    let mut route = |event| runtime.route_event(&event, &answers(), &mut input);
    let steps = route(HostEvent::CloseRequested { window: OTHER });
    assert!(matches!(steps[..], [InputStep::AskClose { id: 4, window: OTHER }]));
    let steps = route(HostEvent::Moved { window: OTHER });
    assert!(matches!(steps[..], [InputStep::NotifyMoved { id: 4 }]));
    let steps = route(HostEvent::ThemeChanged { window: OTHER, theme: WindowTheme::Light });
    assert!(matches!(
        steps[..],
        [InputStep::SetAppearance { id: 4, appearance: WindowAppearance::Light }]
    ));
    let steps = route(HostEvent::CursorEntered { window: OTHER });
    assert!(matches!(steps[..], [InputStep::SetHovered { id: 4, hovered: true }]));
    let steps = route(HostEvent::Lifecycle(AppLifecycle::Suspended));
    assert_eq!(steps.len(), 4);
    assert!(steps.iter().all(|step| matches!(step, InputStep::SetActive { active: false, .. })));
    assert!(!runtime.application_active);
    assert!(!runtime.context_active(Some(true)));
    assert!(runtime.context_active(None));
}

#[test]
fn a_press_takes_the_keyboard() {
    let mut runtime = runtime();
    let mut input = GpuiInputState::default();
    assert_eq!(runtime.keyboard_context_ids(WINDOW), vec![2]);
    assert_eq!(runtime.keyboard_context_ids(OTHER), vec![4]);
    assert!(runtime.keyboard_context_ids(77).is_empty());
    let at = HostEvent::CursorMoved { window: WINDOW, position: point(10.0, 10.0) };
    runtime.route_event(&at, &answers(), &mut input);
    let press = HostEvent::Button {
        window: WINDOW,
        button: HostMouseButton::Left,
        state: ButtonState::Pressed,
    };
    let steps = runtime.route_event(&press, &answers(), &mut input);
    assert_eq!(targets(&steps), vec![3, 1]);
    match &steps[0] {
        InputStep::Pointer { input: RoutedInput::ButtonDown { button, click_count, .. }, .. } => {
            assert_eq!((*button, *click_count), (MouseButton::Left, 1));
        }
        _ => panic!("a press is a button down"),
    }
    assert_eq!(runtime.keyboard_context_ids(WINDOW), vec![1]);
    let blur = HostEvent::Focus { window: WINDOW, focused: false };
    let steps = runtime.route_event(&blur, &answers(), &mut input);
    assert_eq!(steps.len(), 4);
    assert_eq!(runtime.keyboard_context_ids(WINDOW), vec![2]);
    let focus = HostEvent::Focus { window: WINDOW, focused: true };
    assert!(runtime.route_event(&focus, &answers(), &mut input).is_empty());
}

#[test]
fn unnamed_buttons_are_dropped() {
    let mut runtime = runtime();
    let mut input = GpuiInputState::default();
    record_answer(
        bevy_gpui::steps::StepRecord::Pointer { window: WINDOW },
        reply(hit()),
        &mut input,
    );
    let press = HostEvent::Button {
        window: WINDOW,
        button: HostMouseButton::Other(7),
        state: ButtonState::Pressed,
    };
    assert!(runtime.route_event(&press, &answers(), &mut input).is_empty());
    assert!(input.claims_window(WINDOW));
}

#[test]
fn clicks_count_while_they_are_quick_and_near() {
    let mut runtime = GpuiRuntime::<Host>::new();
    let left = HostMouseButton::Left;
    let milli = 1_000_000;
    let mut press = |at, distance| {
        runtime.click_count(WINDOW, left, ButtonState::Pressed, at, scalar(distance))
    };
    assert_eq!(press(1_000 * milli, 0.0), 1);
    assert_eq!(press(1_500 * milli, 4.0), 2);
    assert_eq!(press(1_600 * milli, 4.1), 1);
    assert_eq!(press(1_700 * milli, 0.0), 2);
    assert_eq!(press(2_201 * milli, 0.0), 1);
    assert_eq!(press(2_202 * milli, f32::NAN), 1);
    assert_eq!(press(2_203 * milli, 1.0), 2);
    let mut release =
        |button| runtime.click_count(WINDOW, button, ButtonState::Released, 0, scalar(0.0));
    assert_eq!(release(left), 2);
    assert_eq!(release(HostMouseButton::Right), 1);
    assert_eq!(runtime.last_click(WINDOW, left), Some(point(0.0, 0.0)));
    assert_eq!(runtime.last_click(OTHER, left), None);
}

#[test]
fn click_counts_saturate() {
    let mut runtime = GpuiRuntime::<Host>::new();
    let left = HostMouseButton::Left;
    runtime.click_count(WINDOW, left, ButtonState::Pressed, 5, scalar(0.0));
    let mut click = *runtime.clicks.get(&click_key(WINDOW, left)).unwrap();
    click.count = usize::MAX;
    runtime.clicks.insert(click_key(WINDOW, left), click);
    assert_eq!(
        runtime.click_count(WINDOW, left, ButtonState::Pressed, 6, scalar(0.0)),
        usize::MAX
    );
}

#[test]
fn click_keys_tell_windows_and_buttons_apart() {
    let keys = [
        click_key(1, HostMouseButton::Left),
        click_key(1, HostMouseButton::Forward),
        click_key(1, HostMouseButton::Other(0)),
        click_key(1, HostMouseButton::Other(u16::MAX)),
        click_key(2, HostMouseButton::Left),
        click_key(u64::MAX, HostMouseButton::Left),
    ];
    for (i, a) in keys.iter().enumerate() {
        for b in &keys[i + 1..] {
            assert_ne!(a, b);
        }
    }
}

#[test]
fn wheels_and_files_reach_the_roots_of_their_window() {
    let mut runtime = runtime();
    let mut input = GpuiInputState::default();
    let wheel = HostEvent::Wheel {
        window: OTHER,
        unit: ScrollUnit::Pixel,
        x: scalar(1.0),
        y: scalar(2.0),
        phase: HostTouchPhase::Canceled,
    };
    let steps = runtime.route_event(&wheel, &answers(), &mut input);
    match &steps[..] {
        [InputStep::Pointer { id: 4, input: RoutedInput::Wheel { delta, phase, .. }, .. }] => {
            assert_eq!(*delta, ScrollDelta::Pixels(point(1.0, 2.0)));
            assert_eq!(*phase, TouchPhase::Ended);
        }
        _ => panic!("a wheel reaches the only root of its window"),
    }
    let path = PathBuf::from("a/b.txt");
    let dropped = HostEvent::File(FileEvent::Dropped { window: OTHER, path: path.clone() });
    let steps = runtime.route_event(&dropped, &answers(), &mut input);
    match &steps[..] {
        [
            InputStep::Pointer { input: RoutedInput::FileEntered { path: entered }, .. },
            InputStep::Pointer { input: RoutedInput::FileSubmit, .. },
        ] => assert_eq!(*entered, path),
        _ => panic!("a dropped file enters before it is submitted"),
    }
    let hovered = HostEvent::File(FileEvent::Hovered { window: OTHER, path });
    assert_eq!(runtime.route_event(&hovered, &answers(), &mut input).len(), 1);
    let canceled = HostEvent::File(FileEvent::Canceled { window: OTHER });
    let steps = runtime.route_event(&canceled, &answers(), &mut input);
    assert!(matches!(
        steps[..],
        [InputStep::Pointer { input: RoutedInput::FileExited, .. }]
    ));
}

#[test]
fn pinches_go_to_clicked_roots_or_one_front_root() {
    let mut runtime = runtime();
    let mut input = GpuiInputState::default();
    let pinch = HostEvent::Pinch { amount: scalar(0.5) };
    let steps = runtime.route_event(&pinch, &answers(), &mut input);
    assert!(targets(&steps) == vec![2] || targets(&steps) == vec![4]);
    let press = HostEvent::Button {
        window: OTHER,
        button: HostMouseButton::Left,
        state: ButtonState::Pressed,
    };
    runtime.route_event(&press, &answers(), &mut input);
    let shift = KeyEvent {
        window: OTHER,
        logical_key: LogicalKey::Shift,
        key_code: "ShiftLeft".into(),
        state: ButtonState::Pressed,
        text: None,
        repeat: false,
    };
    runtime.route_event(&HostEvent::Key(shift), &answers(), &mut input);
    let steps = runtime.route_event(&pinch, &answers(), &mut input);
    match &steps[..] {
        [InputStep::Pointer { id: 4, claim, input: RoutedInput::Pinch { amount, modifiers } }] => {
            assert_eq!(*claim, Some(OTHER));
            assert_eq!(*amount, scalar(0.5));
            assert!(modifiers.shift);
        }
        _ => panic!("the clicked root receives the pinch"),
    }
    assert!(GpuiRuntime::<Host>::new().pinch_targets().is_empty());
}

fn key(logical_key: LogicalKey, state: ButtonState, text: Option<&str>) -> HostEvent {
    HostEvent::Key(KeyEvent {
        window: OTHER,
        logical_key,
        key_code: "KeyA".into(),
        state,
        text: text.map(str::to_owned),
        repeat: true,
    })
}

#[test]
fn keys_carry_names_text_and_modifiers() {
    let mut runtime = runtime();
    let mut input = GpuiInputState::default();
    let steps = runtime.route_event(
        &key(LogicalKey::Shift, ButtonState::Pressed, None),
        &answers(),
        &mut input,
    );
    assert_eq!(steps.len(), 2);
    assert!(matches!(
        steps[0],
        InputStep::SetKeyboard { id: 4, modifiers: Modifiers { shift: true, .. }, .. }
    ));
    let steps = runtime.route_event(
        &key(LogicalKey::Character("A".into()), ButtonState::Pressed, Some("A")),
        &answers(),
        &mut input,
    );
    let press = match steps.into_iter().next() {
        Some(InputStep::Key { id: 4, capslock: Capslock { on: false }, press }) => press,
        _ => panic!("a key is delivered"),
    };
    assert_eq!(press.keystroke.key, "a");
    assert_eq!(press.keystroke.key_char.as_deref(), Some("A"));
    assert_eq!(press.keystroke.physical_key.as_deref(), Some("keya"));
    assert!(press.keystroke.modifiers.shift);
    let (delivered, pending) = press.deliver(true);
    assert!(matches!(
        delivered,
        PlatformInput::KeyDown { is_held: true, prefer_character_input: true, .. }
    ));
    assert_eq!(pending.to_insert(missed()).as_deref(), Some("A"));
}

#[test]
fn a_character_without_text_stands_for_itself() {
    let mut runtime = runtime();
    let mut input = GpuiInputState::default();
    let steps = runtime.route_event(
        &key(LogicalKey::Character("X".into()), ButtonState::Released, None),
        &answers(),
        &mut input,
    );
    let press = match steps.into_iter().next() {
        Some(InputStep::Key { press, .. }) => press,
        _ => panic!("a key is delivered"),
    };
    assert_eq!(press.keystroke.key_char.as_deref(), Some("X"));
    let (delivered, pending) = press.deliver(false);
    assert!(matches!(delivered, PlatformInput::KeyUp { .. }));
    assert!(pending.to_insert(missed()).is_none());
    let dropped = key(LogicalKey::Unidentified, ButtonState::Pressed, Some("?"));
    assert!(runtime.route_event(&dropped, &answers(), &mut input).is_empty());
}

#[test]
fn shortcuts_insert_no_text() {
    let insert = |control, alt, platform, result| {
        bevy_gpui::steps::PendingText {
            state: ButtonState::Pressed,
            modifiers: Modifiers { control, alt, platform, ..Modifiers::default() },
            text: Some("x".into()),
        }
        .to_insert(result)
        .is_some()
    };
    assert!(insert(false, false, false, missed()));
    assert!(!insert(true, false, false, missed()));
    assert!(insert(true, true, false, missed()));
    assert!(!insert(false, false, true, missed()));
    let stopped =
        DispatchEventResult { propagate: false, default_prevented: false, pointer_hit: false };
    assert!(!insert(false, false, false, stopped));
}

#[test]
fn keyboard_answers_leave_pointer_claims_alone() {
    let mut runtime = runtime();
    let mut input = GpuiInputState::default();
    let at = HostEvent::CursorMoved { window: WINDOW, position: point(10.0, 10.0) };
    for step in &runtime.route_event(&at, &answers(), &mut input) {
        record_answer(step.record(), reply(hit()), &mut input);
    }
    let event = key(LogicalKey::Enter, ButtonState::Pressed, None);
    for step in &runtime.route_event(&event, &answers(), &mut input) {
        let answer = StepAnswer { result: hit(), handled: true };
        record_answer(step.record(), answer, &mut input);
    }
    assert!(input.claims_window(WINDOW) && !input.claims_window(OTHER));
    assert!(input.wants_keyboard_input);
}

#[test]
fn composition_reaches_the_keyboard_root() {
    let mut runtime = runtime();
    let mut input = GpuiInputState::default();
    let answers = answers();
    let preedit = ImeEvent::Preedit {
        window: WINDOW,
        value: "a\u{1f600}b".into(),
        cursor: Some((1, 5)),
    };
    let steps = runtime.route_event(&HostEvent::Ime(preedit), &answers, &mut input);
    match &steps[..] {
        [InputStep::Ime { id: 2, step: ImeStep::Preedit { value, selected } }] => {
            assert_eq!(value, "a\u{1f600}b");
            assert_eq!(*selected, Some(1..3));
        }
        _ => panic!("text being composed reaches the front root"),
    }
    let commit = ImeEvent::Commit { window: WINDOW, value: "ok".into() };
    let steps = runtime.route_event(&HostEvent::Ime(commit), &answers, &mut input);
    match &steps[..] {
        [InputStep::Ime { id: 2, step: ImeStep::Commit { value } }] => assert_eq!(value, "ok"),
        _ => panic!("accepted text reaches the front root"),
    }
    let disabled = ImeEvent::Disabled { window: WINDOW };
    let steps = runtime.route_event(&HostEvent::Ime(disabled), &answers, &mut input);
    assert!(matches!(steps[..], [InputStep::Ime { id: 2, step: ImeStep::Disabled }]));
    record_answer(steps[0].record(), StepAnswer { result: missed(), handled: false }, &mut input);
    assert!(!input.wants_keyboard_input);
    record_answer(steps[0].record(), StepAnswer { result: missed(), handled: true }, &mut input);
    assert!(input.wants_keyboard_input);
}

#[test]
fn shown_windows_are_those_with_roots() {
    let mut windows = runtime().shown_windows();
    windows.sort();
    assert_eq!(windows, vec![WINDOW, OTHER]);
}

#[test]
fn shown_roots_are_those_of_some_window() {
    let mut runtime = runtime();
    let mut roots = runtime.shown_roots();
    roots.sort();
    assert_eq!(roots, vec![1, 2, 3, 4]);
    let offscreen =
        ContextBinding { window: None, viewport: rect(0.0, 0.0, 100.0, 100.0), order: 0 };
    assert!(runtime.begin_sync(&vec![1, 2]).iter().all(|id| [3, 4].contains(id)));
    bind_cameras(&mut runtime, &vec![CameraBinding { id: 1, binding: offscreen }]);
    assert!(runtime.shown_roots().is_empty());
    assert!(runtime.context_ids_at(WINDOW, None).is_empty());
}

#[test]
fn the_host_is_asked_for_what_decides_a_message() {
    let mut runtime = runtime();
    let mut input = GpuiInputState::default();
    let press = HostEvent::Button {
        window: WINDOW,
        button: HostMouseButton::Left,
        state: ButtonState::Pressed,
    };
    assert_eq!(runtime.click_query(&press), None);
    let moved = |x| HostEvent::CursorMoved { window: WINDOW, position: point(x, 5.0) };
    runtime.route_event(&moved(10.0), &answers(), &mut input);
    runtime.route_event(&press, &answers(), &mut input);
    runtime.route_event(&moved(20.0), &answers(), &mut input);
    assert_eq!(runtime.click_query(&press), Some((point(10.0, 5.0), point(20.0, 5.0))));
    let shift = key(LogicalKey::Shift, ButtonState::Pressed, None);
    assert_eq!(runtime.click_query(&shift), None);
}

#[test]
fn a_clicked_root_keeps_the_keyboard_only_while_shown() {
    let mut runtime = runtime();
    let mut input = GpuiInputState::default();
    let moved = HostEvent::CursorMoved { window: WINDOW, position: point(10.0, 5.0) };
    let press = HostEvent::Button {
        window: WINDOW,
        button: HostMouseButton::Left,
        state: ButtonState::Pressed,
    };
    runtime.route_event(&moved, &answers(), &mut input);
    runtime.route_event(&press, &answers(), &mut input);
    assert_eq!(runtime.keyboard_context_ids(WINDOW), vec![1]);
    let elsewhere = |id, window| CameraBinding {
        id,
        binding: ContextBinding {
            window: Some(window),
            viewport: rect(0.0, 0.0, 100.0, 100.0),
            order: 0,
        },
    };
    runtime.begin_sync(&vec![1, 2, 3, 4]);
    let cameras = vec![elsewhere(1, OTHER), elsewhere(3, WINDOW), elsewhere(2, WINDOW)];
    bind_cameras(&mut runtime, &cameras);
    assert_eq!(runtime.keyboard_context_ids(WINDOW), vec![2]);
}

#[test]
fn leaving_every_root_gives_the_pointer_back() {
    let mut runtime = runtime();
    let mut input = GpuiInputState::default();
    let moved = |x| HostEvent::CursorMoved { window: WINDOW, position: point(x, 5.0) };
    for step in &runtime.route_event(&moved(10.0), &answers(), &mut input) {
        record_answer(step.record(), reply(hit()), &mut input);
    }
    assert!(input.claims_window(WINDOW));
    let steps = runtime.route_event(&moved(500.0), &answers(), &mut input);
    assert!(targets(&steps).is_empty());
    for step in &steps {
        record_answer(step.record(), reply(hit()), &mut input);
    }
    assert!(!input.claims_window(WINDOW));
}

#[test]
fn later_answers_do_not_withdraw_earlier_ones() {
    let mut runtime = runtime();
    let mut input = GpuiInputState::default();
    let moved = HostEvent::CursorMoved { window: WINDOW, position: point(10.0, 5.0) };
    let steps = runtime.route_event(&moved, &answers(), &mut input);
    assert_eq!(steps.len(), 2);
    let prevented =
        DispatchEventResult { propagate: true, default_prevented: true, pointer_hit: false };
    record_answer(steps[0].record(), reply(prevented), &mut input);
    record_answer(steps[1].record(), reply(missed()), &mut input);
    assert!(input.default_prevented);
    assert!(input.claims_window(WINDOW));
}

#[test]
fn clicked_roots_that_went_offscreen_get_no_pinch() {
    let mut runtime = runtime();
    let mut input = GpuiInputState::default();
    for window in [WINDOW, OTHER] {
        let press = HostEvent::Button {
            window,
            button: HostMouseButton::Left,
            state: ButtonState::Pressed,
        };
        runtime.route_event(&press, &answers(), &mut input);
    }
    let mut targets = runtime.pinch_targets();
    targets.sort();
    assert_eq!(targets, vec![2, 4]);
    let camera = |id, window| CameraBinding {
        id,
        binding: ContextBinding { window, viewport: rect(0.0, 0.0, 100.0, 100.0), order: 0 },
    };
    runtime.begin_sync(&vec![1, 2, 3, 4]);
    bind_cameras(
        &mut runtime,
        &vec![camera(1, Some(WINDOW)), camera(2, None), camera(4, Some(OTHER))],
    );
    assert_eq!(runtime.pinch_targets(), vec![4]);
    runtime.begin_sync(&vec![1, 2, 3, 4]);
    bind_cameras(
        &mut runtime,
        &vec![camera(1, Some(WINDOW)), camera(2, None), camera(4, None)],
    );
    assert_eq!(runtime.pinch_targets(), vec![1]);
}

#[test]
fn a_clicked_root_that_moved_to_another_window_keeps_the_pinch() {
    let mut runtime = runtime();
    let mut input = GpuiInputState::default();
    let press = HostEvent::Button {
        window: WINDOW,
        button: HostMouseButton::Left,
        state: ButtonState::Pressed,
    };
    runtime.route_event(&press, &answers(), &mut input);
    assert_eq!(runtime.pinch_targets(), vec![2]);
    let camera = |id, window, order| CameraBinding {
        id,
        binding: ContextBinding { window, viewport: rect(0.0, 0.0, 100.0, 100.0), order },
    };
    runtime.begin_sync(&vec![1, 2, 3, 4]);
    bind_cameras(
        &mut runtime,
        &vec![
            camera(1, Some(WINDOW), 0),
            camera(2, Some(OTHER), 0),
            camera(4, Some(OTHER), 1),
        ],
    );
    assert_eq!(runtime.pinch_targets(), vec![2]);
    assert_eq!(runtime.keyboard_context_ids(WINDOW), vec![1]);
    assert_eq!(runtime.keyboard_context_ids(OTHER), vec![4]);
}

#[test]
fn a_dispatch_without_a_window_can_prevent_the_default() {
    let runtime = runtime();
    let mut input = GpuiInputState::default();
    let steps = runtime.route_pinch(&vec![77], scalar(1.0));
    assert!(matches!(steps[..], [InputStep::Pointer { id: 77, claim: None, .. }]));
    record_answer(steps[0].record(), reply(hit()), &mut input);
    assert!(!input.default_prevented);
    let prevented =
        DispatchEventResult { propagate: true, default_prevented: true, pointer_hit: true };
    record_answer(steps[0].record(), reply(prevented), &mut input);
    assert!(input.default_prevented);
    input.finish_pass(false, &runtime.shown_windows());
    assert!(!input.wants_pointer_input && !input.wants_keyboard_input);
}

#[test]
fn a_pass_keeps_the_claims_of_windows_it_is_not_about() {
    let mut runtime = runtime();
    let mut input = GpuiInputState::default();
    let moved = HostEvent::CursorMoved { window: WINDOW, position: point(10.0, 5.0) };
    for step in &runtime.route_event(&moved, &answers(), &mut input) {
        record_answer(step.record(), reply(hit()), &mut input);
    }
    input.finish_pass(false, &runtime.shown_windows());
    assert!(input.wants_pointer_input);
    input.begin_pass(true);
    let messages = vec![
        HostEvent::Lifecycle(AppLifecycle::Suspended),
        HostEvent::CloseRequested { window: WINDOW },
        HostEvent::Moved { window: WINDOW },
        HostEvent::ThemeChanged { window: WINDOW, theme: WindowTheme::Light },
        HostEvent::CursorEntered { window: WINDOW },
        HostEvent::CursorLeft { window: OTHER },
        HostEvent::Focus { window: WINDOW, focused: false },
        key(LogicalKey::Shift, ButtonState::Pressed, None),
    ];
    for message in &messages {
        for step in &runtime.route_event(message, &answers(), &mut input) {
            record_answer(step.record(), reply(missed()), &mut input);
        }
    }
    input.finish_pass(true, &runtime.shown_windows());
    assert!(input.claims_window(WINDOW) && input.wants_pointer_input);
    assert!(input.wants_keyboard_input && !input.default_prevented);
    input.begin_pass(true);
    input.finish_pass(false, &vec![OTHER]);
    assert!(!input.claims_window(WINDOW) && !input.wants_pointer_input);
}
