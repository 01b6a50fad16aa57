use bevy_gpui::cursor::{CursorStyle, WindowBackgroundAppearance};
use bevy_gpui::geometry::{Bounds, Point, Size};
use bevy_gpui::host::HostTypes;
use bevy_gpui::input::{MouseButton, PlatformInput, RoutedInput, WindowAppearance};
use bevy_gpui::keys::{Capslock, Modifiers};
use bevy_gpui::platform::{BevyPlatform, OpenError};
use bevy_gpui::scalar::Scalar;
use bevy_gpui::window::{
    commit_edit, preedit_edit, BevyPlatformWindow, HandleUnavailable, TextEdit,
};
use raw_window_handle::{RawDisplayHandle, RawWindowHandle, WebDisplayHandle, WebWindowHandle};
use std::rc::Rc;
use std::sync::Arc;

struct Host;

impl HostTypes for Host {
    type Handle = u32;
    type Display = &'static str;
    type Atlas = &'static str;
    type Snapshot = &'static str;
    type InputHandler = &'static str;
    type FrameCallback = &'static str;
    type InputCallback = &'static str;
    type FlagCallback = &'static str;
    type ResizeCallback = &'static str;
    type UnitCallback = &'static str;
    type ShouldCloseCallback = &'static str;
    type CloseCallback = &'static str;
    type HitTestCallback = &'static str;
    type ClipboardItem = &'static str;
    type RootFactory = &'static str;
}

fn scalar(value: f32) -> Scalar {
    Scalar { bits: value.to_bits() }
}

fn point(x: f32, y: f32) -> Point {
    Point { x: scalar(x), y: scalar(y) }
}

fn bounds(x: f32, y: f32, width: f32, height: f32) -> Bounds {
    Bounds { origin: point(x, y), size: Size { width: scalar(width), height: scalar(height) } }
}

fn window() -> BevyPlatformWindow<Host> {
    BevyPlatformWindow::new(7, bounds(0.0, 0.0, 100.0, 50.0), Rc::new("display"), Arc::new("atlas"))
}

fn platform() -> BevyPlatform<Host> {
    BevyPlatform::new(Arc::new("atlas"), Rc::new("default"))
}

fn with_window(id: u64) -> BevyPlatform<Host> {
    let mut platform = platform();
    platform.prepare_open_context(id).unwrap();
    assert_eq!(platform.open_window(id as u32 + 100, bounds(0.0, 0.0, 100.0, 50.0)), Ok(id));
    platform
}

fn mouse_move(x: f32, y: f32) -> PlatformInput {
    PlatformInput::MouseMove {
        position: point(x, y),
        pressed_button: None,
        modifiers: Modifiers::default(),
    }
}

#[test]
fn a_new_window_is_active_dark_and_empty() {
    let window = window();
    assert!(window.is_active && !window.is_hovered && window.cursor_visible);
    assert_eq!(window.appearance, WindowAppearance::Dark);
    assert_eq!(window.background_appearance, WindowBackgroundAppearance::Transparent);
    assert_eq!(window.cursor_style, CursorStyle::Arrow);
    assert_eq!(f32::from_bits(window.scale_factor.bits), 1.0);
    assert_eq!(window.title, "");
    assert!(window.input.is_none() && window.input_handler.is_none());
    assert_eq!(window.window_handle(), Err(HandleUnavailable));
    assert_eq!(window.display_handle(), Err(HandleUnavailable));
}

#[test]
fn input_updates_pointer_state_before_its_callback_runs() {
    let mut window = window();
    window.on_input("input");
    let press = PlatformInput::MouseDown {
        button: MouseButton::Right,
        position: point(3.0, 4.0),
        modifiers: Modifiers::default(),
        click_count: 1,
        first_mouse: false,
    };
    assert_eq!(window.begin_input(&press), Some("input"));
    assert_eq!(window.mouse_position, point(3.0, 4.0));
    assert_eq!(window.pressed_button, Some(MouseButton::Right));
    assert!(window.begin_input(&mouse_move(5.0, 6.0)).is_none());
    window.finish_input("input");
    assert_eq!(window.pressed_button, Some(MouseButton::Right));
    let release = PlatformInput::MouseUp {
        button: MouseButton::Right,
        position: point(7.0, 8.0),
        modifiers: Modifiers::default(),
        click_count: 1,
    };
    window.begin_input(&release);
    assert_eq!(window.pressed_button, None);
    assert_eq!(window.mouse_position, point(7.0, 8.0));
}

#[test]
fn a_hidden_cursor_returns_with_the_next_move() {
    let mut window = window();
    window.set_cursor_visible(false);
    assert_eq!(window.take_output().cursor_visible, Some(false));
    window.begin_input(&PlatformInput::FileExited);
    assert!(!window.cursor_visible);
    window.begin_input(&mouse_move(1.0, 1.0));
    assert!(window.cursor_visible);
    assert_eq!(window.take_output().cursor_visible, Some(true));
}

#[test]
fn host_changes_announce_only_what_changed() {
    let mut window = window();
    window.on_resize("resize");
    window.on_moved("moved");
    window.on_active_status_change("active");
    let same = bounds(0.0, 0.0, 100.0, 50.0);
    let change = window.begin_sync_host_state(same, scalar(1.0), scalar(0.0), true);
    assert!(change.resized.is_none() && change.moved.is_none() && change.active_changed.is_none());
    window.finish_sync_host_state(change);

    let change =
        window.begin_sync_host_state(bounds(5.0, 0.0, 100.0, 51.0), scalar(1.0), scalar(0.0), false);
    assert_eq!(change.resized, Some("resize"));
    assert_eq!(change.moved, Some("moved"));
    assert_eq!(change.active_changed, Some("active"));
    assert!(window.resized.is_none() && window.moved.is_none() && window.active.is_none());
    window.finish_sync_host_state(change);
    assert_eq!(window.resized, Some("resize"));
    assert_eq!(window.moved, Some("moved"));
    assert_eq!(window.active, Some("active"));
    assert_eq!(window.bounds, bounds(5.0, 0.0, 100.0, 51.0));
    assert!(!window.is_active);
}

#[test]
fn a_scale_within_rounding_is_no_resize() {
    let mut window = window();
    window.on_resize("resize");
    let same = bounds(0.0, 0.0, 100.0, 50.0);
    let epsilon = scalar(f32::EPSILON);
    assert!(window.begin_sync_host_state(same, scalar(1.0), epsilon, true).resized.is_none());
    let above = scalar(f32::EPSILON * 1.5);
    assert_eq!(
        window.begin_sync_host_state(same, scalar(1.0), above, true).resized,
        Some("resize")
    );
}

#[test]
fn appearance_and_hover_are_announced_once() {
    let mut window = window();
    window.on_appearance_changed("appearance");
    window.on_hover_status_change("hover");
    assert!(window.begin_host_appearance(WindowAppearance::Dark).is_none());
    assert_eq!(window.begin_host_appearance(WindowAppearance::Light), Some("appearance"));
    window.finish_host_appearance("appearance");
    assert!(window.begin_host_appearance(WindowAppearance::Light).is_none());
    assert_eq!(window.begin_set_hovered(true), Some("hover"));
    window.finish_set_hovered("hover");
    assert!(window.begin_set_hovered(true).is_none());
    assert!(window.is_hovered);
}

#[test]
fn scenes_are_numbered_and_taken_once() {
    let mut window = window();
    assert!(window.take_latest_snapshot().is_none());
    window.draw("first");
    window.draw("second");
    assert_eq!(window.take_latest_snapshot(), Some((2, "second")));
    assert!(window.take_latest_snapshot().is_none());
    window.scene_generation = u64::MAX;
    window.draw("wrapped");
    assert_eq!(window.take_latest_snapshot(), Some((0, "wrapped")));
}

#[test]
fn window_requests_are_collected_and_taken() {
    let mut window = window();
    window.set_title("Title");
    window.resize(Size { width: scalar(640.0), height: scalar(480.0) });
    window.toggle_fullscreen();
    window.minimize();
    window.zoom();
    window.activate();
    window.update_ime_position(bounds(1.0, 2.0, 3.0, 4.0));
    window.set_background_appearance(WindowBackgroundAppearance::Blurred);
    assert_eq!(window.title, "Title");
    assert!(window.fullscreen);
    let output = window.take_output();
    assert_eq!(output.title.as_deref(), Some("Title"));
    assert_eq!(output.logical_size, Some(Size { width: scalar(640.0), height: scalar(480.0) }));
    assert_eq!(output.fullscreen, Some(true));
    assert!(output.minimize && output.maximize && output.activate);
    assert_eq!(output.ime_position, Some(point(1.0, 2.0)));
    assert_eq!(output.background_appearance, Some(WindowBackgroundAppearance::Blurred));
    let output = window.take_output();
    assert!(output.title.is_none() && !output.minimize && output.fullscreen.is_none());
    window.toggle_fullscreen();
    assert_eq!(window.take_output().fullscreen, Some(false));
}

#[test]
fn composition_edits() {
    assert_eq!(preedit_edit(&String::new(), Some(0..0)), TextEdit::Unmark);
    assert_eq!(
        preedit_edit(&"\u{3042}".to_string(), Some(0..1)),
        TextEdit::ReplaceAndMark { text: "\u{3042}".into(), selected: Some(0..1) }
    );
    assert_eq!(commit_edit(&"ok".to_string()), TextEdit::Commit { text: "ok".into() });
}

#[test]
fn native_handles_are_handed_out_once_supplied() {
    let mut platform = with_window(1);
    let window = RawWindowHandle::Web(WebWindowHandle::new(5));
    let display = RawDisplayHandle::Web(WebDisplayHandle::new());
    platform.set_window_raw_handles(1, window, display);
    assert_eq!(platform.window(1).unwrap().window_handle(), Ok(window));
    assert_eq!(platform.window(1).unwrap().display_handle(), Ok(display));
}

#[test]
fn windows_open_for_the_announced_context() {
    let mut platform = platform();
    assert_eq!(platform.open_window(1, bounds(0.0, 0.0, 1.0, 1.0)), Err(OpenError::NoPendingContext));
    assert_eq!(platform.prepare_open_context(4), Ok(()));
    assert_eq!(platform.prepare_open_context(5), Err(OpenError::AlreadyOpening));
    assert_eq!(platform.open_window(1, bounds(0.0, 0.0, 1.0, 1.0)), Ok(5));
    assert!(platform.window(5).is_some() && platform.window(4).is_none());
    assert_eq!(*platform.window(5).unwrap().display, "default");
    assert_eq!(
        OpenError::AlreadyOpening.message(),
        "another embedded GPUI window is already opening"
    );
    assert_eq!(
        OpenError::NoPendingContext.message(),
        "GPUI opened a window without a Bevy context binding"
    );
}

#[test]
fn only_the_announced_context_can_be_withdrawn() {
    let mut platform = platform();
    platform.prepare_open_context(4).unwrap();
    platform.cancel_open_context(5);
    assert_eq!(platform.prepare_open_context(4), Err(OpenError::AlreadyOpening));
    platform.cancel_open_context(4);
    assert_eq!(platform.prepare_open_context(6), Ok(()));
}

#[test]
fn dispatch_makes_its_context_active_and_restores_it() {
    let mut platform = with_window(1);
    let mut window = platform.take_window(1).unwrap();
    window.on_input("input");
    platform.put_window(1, window);
    assert!(platform.begin_dispatch(2, &mouse_move(1.0, 1.0)).is_none());
    let dispatch = platform.begin_dispatch(1, &mouse_move(1.0, 2.0)).unwrap();
    assert_eq!(dispatch.callback, Some("input"));
    assert_eq!(dispatch.previous, None);
    platform.set_cursor_style(CursorStyle::IBeam);
    platform.hide_cursor_until_mouse_moves();
    assert!(!platform.is_cursor_visible());
    platform.finish_dispatch(1, dispatch);
    assert!(platform.is_cursor_visible());
    assert_eq!(platform.window(1).unwrap().input, Some("input"));
    assert_eq!(platform.mouse_position(1), point(1.0, 2.0));
    assert_eq!(platform.cursor_style(1), CursorStyle::IBeam);
    platform.set_cursor_style(CursorStyle::Crosshair);
    assert_eq!(platform.cursor_style(1), CursorStyle::IBeam);
    assert_eq!(platform.cursor_style(99), CursorStyle::Crosshair);
}

#[test]
fn input_is_completed_with_what_the_window_knows() {
    let mut platform = with_window(1);
    platform.begin_dispatch(1, &PlatformInput::MouseDown {
        button: MouseButton::Left,
        position: point(8.0, 9.0),
        modifiers: Modifiers::default(),
        click_count: 1,
        first_mouse: false,
    });
    let moved = RoutedInput::CursorMove {
        position: point(50.0, 50.0),
        viewport_origin: point(40.0, 40.0),
        modifiers: Modifiers::default(),
    };
    match platform.deliver(1, moved, point(10.0, 10.0)) {
        PlatformInput::MouseMove { position, pressed_button, .. } => {
            assert_eq!(position, point(10.0, 10.0));
            assert_eq!(pressed_button, Some(MouseButton::Left));
        }
        _ => panic!("a cursor move becomes a mouse move"),
    }
    let exit = RoutedInput::CursorExit { modifiers: Modifiers::default() };
    match platform.deliver(1, exit, point(0.0, 0.0)) {
        PlatformInput::MouseExited { position, pressed_button, .. } => {
            assert_eq!(position, point(8.0, 9.0));
            assert_eq!(pressed_button, None);
        }
        _ => panic!("a cursor exit becomes a mouse exit"),
    }
    match platform.deliver(2, RoutedInput::FileSubmit, point(1.0, 1.0)) {
        PlatformInput::FileSubmit { position } => assert_eq!(position, point(0.0, 0.0)),
        _ => panic!("a submit stays a submit"),
    }
}

#[test]
fn windows_follow_their_viewport_and_activity() {
    let mut platform = with_window(1);
    let mut window = platform.take_window(1).unwrap();
    window.on_resize("resize");
    window.on_active_status_change("active");
    platform.put_window(1, window);
    let size = Size { width: scalar(30.0), height: scalar(40.0) };
    let change = platform.begin_sync_window(1, size, scalar(2.0), scalar(1.0), true).unwrap();
    assert_eq!(change.resized, Some("resize"));
    platform.finish_sync_window(1, change);
    assert_eq!(platform.window(1).unwrap().bounds, bounds(0.0, 0.0, 30.0, 40.0));
    let change = platform.begin_set_context_active(1, false).unwrap();
    assert!(change.resized.is_none());
    assert_eq!(change.active_changed, Some("active"));
    platform.finish_sync_window(1, change);
    assert!(!platform.window(1).unwrap().is_active);
    assert_eq!(platform.window(1).unwrap().active, Some("active"));
    assert!(platform.begin_sync_window(2, size, scalar(1.0), scalar(0.0), true).is_none());
    assert!(platform.begin_set_context_active(2, true).is_none());
}

#[test]
fn callbacks_leave_their_slots_while_they_run() {
    let mut platform = with_window(1);
    let mut window = platform.take_window(1).unwrap();
    window.on_request_frame("frame");
    window.on_moved("moved");
    window.on_should_close("close");
    window.on_hover_status_change("hover");
    window.on_appearance_changed("appearance");
    window.set_input_handler("field");
    platform.put_window(1, window);

    let dispatch = platform.begin_request_frame(1).unwrap();
    assert_eq!(dispatch.callback, Some("frame"));
    assert!(platform.begin_request_frame(1).unwrap().callback.is_none());
    platform.finish_request_frame(1, dispatch);
    assert_eq!(platform.window(1).unwrap().request_frame, Some("frame"));

    assert_eq!(platform.begin_notify_window_moved(1), Some("moved"));
    platform.finish_notify_window_moved(1, "moved");
    assert_eq!(platform.window(1).unwrap().moved, Some("moved"));

    assert_eq!(platform.begin_should_close(1), Some("close"));
    assert!(platform.begin_should_close(1).is_none());
    platform.finish_should_close(1, "close");
    assert_eq!(platform.window(1).unwrap().should_close, Some("close"));

    assert_eq!(platform.begin_set_hovered(1, true), Some("hover"));
    platform.finish_set_hovered(1, "hover");
    assert!(platform.begin_set_hovered(1, true).is_none());

    assert_eq!(platform.begin_set_window_appearance(1, WindowAppearance::Light), Some("appearance"));
    platform.finish_set_window_appearance(1, "appearance");
    assert!(platform.begin_set_window_appearance(9, WindowAppearance::Dark).is_none());
    assert_eq!(platform.window_appearance(), WindowAppearance::Dark);
    assert_eq!(platform.window(1).unwrap().appearance, WindowAppearance::Light);

    assert_eq!(platform.take_input_handler(1), Some("field"));
    assert!(platform.take_input_handler(1).is_none());
    platform.restore_input_handler(1, "field");
    assert_eq!(platform.take_input_handler(1), Some("field"));
    assert!(platform.take_input_handler(9).is_none());
}

#[test]
fn keyboard_state_reaches_the_window() {
    let mut platform = with_window(1);
    let modifiers = Modifiers { shift: true, ..Modifiers::default() };
    platform.set_keyboard_state(1, modifiers, Capslock { on: true });
    platform.set_keyboard_state(2, modifiers, Capslock { on: true });
    assert_eq!(platform.window(1).unwrap().modifiers, modifiers);
    assert!(platform.window(1).unwrap().capslock.on);
}

#[test]
fn displays_are_sorted_and_forgotten() {
    let mut platform = platform();
    assert_eq!(platform.displays().iter().map(|d| **d).collect::<Vec<_>>(), vec!["default"]);
    assert_eq!(*platform.primary_display(), "default");
    assert_eq!(*platform.sync_display(30, Rc::new("c"), false), "c");
    assert_eq!(*platform.sync_display(10, Rc::new("a"), true), "a");
    assert_eq!(*platform.sync_display(20, Rc::new("b"), false), "b");
    assert_eq!(*platform.sync_display(10, Rc::new("again"), false), "a");
    assert_eq!(
        platform.displays().iter().map(|d| **d).collect::<Vec<_>>(),
        vec!["a", "b", "c"]
    );
    assert_eq!(*platform.primary_display(), "a");
    platform.retain_displays(&vec![30, 20]);
    assert_eq!(platform.displays().iter().map(|d| **d).collect::<Vec<_>>(), vec!["b", "c"]);
    assert_eq!(*platform.primary_display(), "default");
}

#[test]
fn windows_move_to_known_displays_only() {
    let mut platform = with_window(1);
    platform.sync_display(10, Rc::new("a"), false);
    platform.set_window_display(1, 11);
    assert_eq!(*platform.window(1).unwrap().display, "default");
    platform.set_window_display(1, 10);
    assert_eq!(*platform.window(1).unwrap().display, "a");
}

#[test]
fn the_active_window_is_preferred() {
    let mut platform = platform();
    assert_eq!(platform.active_window(), None);
    for id in [1, 2, 3] {
        platform.prepare_open_context(id).unwrap();
        platform.open_window(0, bounds(0.0, 0.0, 1.0, 1.0)).unwrap();
    }
    for id in [1, 3] {
        let change = platform.begin_set_context_active(id, false).unwrap();
        platform.finish_sync_window(id, change);
    }
    assert_eq!(platform.active_window(), Some(2));
    let change = platform.begin_set_context_active(2, false).unwrap();
    platform.finish_sync_window(2, change);
    assert!(matches!(platform.active_window(), Some(1) | Some(2) | Some(3)));
}

#[test]
fn quitting_runs_its_callbacks_and_is_reported_once() {
    let mut platform = platform();
    platform.on_quit("one");
    platform.on_quit("two");
    platform.on_reopen("reopen");
    assert!(!platform.quit_requested());
    let callbacks = platform.begin_quit();
    assert_eq!(callbacks, vec!["one", "two"]);
    platform.on_quit("three");
    platform.finish_quit(callbacks);
    assert!(platform.quit_requested());
    assert!(!platform.quit_requested());
    assert_eq!(platform.begin_quit(), vec!["one", "two", "three"]);
}

#[test]
fn the_clipboard_reads_back_what_was_written() {
    let mut platform = platform();
    assert!(platform.clipboard().is_none());
    platform.write_to_clipboard("text");
    platform.refresh_clipboard(None);
    assert_eq!(platform.clipboard(), Some(&"text"));
    platform.refresh_clipboard(Some("system"));
    assert_eq!(platform.clipboard(), Some(&"system"));
}

#[test]
fn removed_contexts_have_no_window() {
    let mut platform = with_window(1);
    platform.take_window(1).map(|mut window| {
        window.draw("scene");
        platform.put_window(1, window);
    });
    assert_eq!(platform.take_latest_snapshot(1), Some((1, "scene")));
    assert!(platform.take_latest_snapshot(1).is_none());
    assert_eq!(platform.remove_context(1).unwrap().handle, 101);
    assert!(platform.remove_context(1).is_none());
    assert!(platform.take_latest_snapshot(1).is_none());
    assert!(platform.take_window_output(1).title.is_none());
    assert_eq!(platform.pressed_button(1), None);
}
