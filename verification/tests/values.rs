use bevy_gpui::cursor::{map_cursor_style, CursorStyle, SystemCursorIcon, WindowBackgroundAppearance};
use bevy_gpui::display::BevyDisplay;
use bevy_gpui::geometry::{Bounds, Point, Rect, Size};
use bevy_gpui::input::{
    map_mouse_button, map_touch_phase, map_window_theme, scroll_delta, AppLifecycle,
    HostMouseButton, HostTouchPhase, MouseButton, NavigationDirection, ScrollDelta, ScrollUnit,
    TouchPhase, WindowAppearance, WindowTheme,
};
use bevy_gpui::keys::{
    map_logical_key, update_modifier_state, ButtonState, Capslock, LogicalKey, Modifiers,
};
use bevy_gpui::scalar::{
    Scalar, FOUR_PIXELS_BITS, INFINITY_BITS, LARGEST_BITS, SCALE_TOLERANCE_BITS,
};
use bevy_gpui::text::byte_range_to_utf16;

fn scalar(value: f32) -> Scalar {
    Scalar { bits: value.to_bits() }
}

fn point(x: f32, y: f32) -> Point {
    Point { x: scalar(x), y: scalar(y) }
}

#[test]
fn maps_gpui_keybinding_names() {
    assert_eq!(map_logical_key(&LogicalKey::Enter).as_deref(), Some("enter"));
    assert_eq!(map_logical_key(&LogicalKey::ArrowLeft).as_deref(), Some("left"));
    assert_eq!(map_logical_key(&LogicalKey::PageUp).as_deref(), Some("pageup"));
    assert_eq!(map_logical_key(&LogicalKey::F35).as_deref(), Some("f35"));
    assert_eq!(
        map_logical_key(&LogicalKey::Character("A".into())).as_deref(),
        Some("a")
    );
    assert_eq!(map_logical_key(&LogicalKey::Unidentified), None);
}

#[test]
fn names_keys_outside_the_table() {
    assert_eq!(map_logical_key(&LogicalKey::Dead(Some('\u{b4}'))).as_deref(), Some("\u{b4}"));
    assert_eq!(map_logical_key(&LogicalKey::Dead(None)), None);
    assert_eq!(
        map_logical_key(&LogicalKey::Named("MediaPlayPause".into())).as_deref(),
        Some("mediaplaypause")
    );
    assert_eq!(map_logical_key(&LogicalKey::AltGraph).as_deref(), Some("altgraph"));
    assert_eq!(map_logical_key(&LogicalKey::Space).as_deref(), Some("space"));
    assert_eq!(
        map_logical_key(&LogicalKey::Character("\u{c4}B1".into())).as_deref(),
        Some("\u{c4}b1")
    );
}

#[test]
fn modifier_state_tracks_press_release_and_capslock_toggle() {
    let mut modifiers = Modifiers::default();
    let mut capslock = Capslock::default();

    assert!(update_modifier_state(
        &LogicalKey::Shift,
        ButtonState::Pressed,
        &mut modifiers,
        &mut capslock,
    ));
    assert!(modifiers.shift);
    update_modifier_state(
        &LogicalKey::Shift,
        ButtonState::Released,
        &mut modifiers,
        &mut capslock,
    );
    assert!(!modifiers.shift);

    update_modifier_state(
        &LogicalKey::CapsLock,
        ButtonState::Pressed,
        &mut modifiers,
        &mut capslock,
    );
    assert!(capslock.on);
    update_modifier_state(
        &LogicalKey::CapsLock,
        ButtonState::Released,
        &mut modifiers,
        &mut capslock,
    );
    assert!(capslock.on);
}

#[test]
fn alt_graph_holds_alt_and_control() {
    let mut modifiers = Modifiers::default();
    let mut capslock = Capslock::default();
    assert!(update_modifier_state(
        &LogicalKey::AltGraph,
        ButtonState::Pressed,
        &mut modifiers,
        &mut capslock,
    ));
    assert!(modifiers.alt && modifiers.control && !modifiers.platform);
    assert!(update_modifier_state(
        &LogicalKey::Hyper,
        ButtonState::Pressed,
        &mut modifiers,
        &mut capslock,
    ));
    assert!(modifiers.platform);
    assert!(!update_modifier_state(
        &LogicalKey::Enter,
        ButtonState::Pressed,
        &mut modifiers,
        &mut capslock,
    ));
}

#[test]
fn pressing_caps_lock_twice_restores_it() {
    let mut modifiers = Modifiers::default();
    let mut capslock = Capslock::default();
    for _ in 0..2 {
        update_modifier_state(
            &LogicalKey::CapsLock,
            ButtonState::Pressed,
            &mut modifiers,
            &mut capslock,
        );
    }
    assert_eq!(capslock, Capslock { on: false });
    assert_eq!(modifiers, Modifiers::default());
}

#[test]
fn converts_ime_byte_offsets_to_utf16_offsets() {
    assert_eq!(byte_range_to_utf16("a😀b", 1, 5), Some(1..3));
    assert_eq!(byte_range_to_utf16("a😀b", 2, 5), None);
    assert_eq!(byte_range_to_utf16("abc", 3, 2), None);
}

#[test]
fn rejects_offsets_past_the_end() {
    assert_eq!(byte_range_to_utf16("abc", 0, 4), None);
    assert_eq!(byte_range_to_utf16("", 0, 0), Some(0..0));
    assert_eq!(byte_range_to_utf16("\u{20ac}x", 3, 4), Some(1..2));
}

#[test]
fn maps_gpui_cursor_styles_to_bevy_system_cursors() {
    assert_eq!(
        map_cursor_style(CursorStyle::PointingHand),
        SystemCursorIcon::Pointer
    );
    assert_eq!(
        map_cursor_style(CursorStyle::ResizeLeftRight),
        SystemCursorIcon::EwResize
    );
    assert_eq!(
        map_cursor_style(CursorStyle::OperationNotAllowed),
        SystemCursorIcon::NotAllowed
    );
}

#[test]
fn different_cursor_styles_look_different() {
    assert_ne!(
        map_cursor_style(CursorStyle::ResizeLeft),
        map_cursor_style(CursorStyle::ResizeRight)
    );
    assert_eq!(map_cursor_style(CursorStyle::Arrow), SystemCursorIcon::Default);
    assert_eq!(map_cursor_style(CursorStyle::DragLink), SystemCursorIcon::Alias);
}

#[test]
fn only_materials_the_host_lacks_are_reported() {
    assert!(!WindowBackgroundAppearance::Opaque.is_transparent());
    assert!(WindowBackgroundAppearance::Transparent.is_transparent());
    assert!(!WindowBackgroundAppearance::Transparent.needs_material());
    assert!(WindowBackgroundAppearance::MicaAltBackdrop.needs_material());
}

#[test]
fn maps_pointer_values() {
    assert_eq!(map_mouse_button(HostMouseButton::Left), Some(MouseButton::Left));
    assert_eq!(
        map_mouse_button(HostMouseButton::Back),
        Some(MouseButton::Navigate(NavigationDirection::Back))
    );
    assert_eq!(map_mouse_button(HostMouseButton::Other(9)), None);
    assert_eq!(map_touch_phase(HostTouchPhase::Canceled), TouchPhase::Ended);
    assert_eq!(map_touch_phase(HostTouchPhase::Started), TouchPhase::Started);
    assert_eq!(map_window_theme(WindowTheme::Light), WindowAppearance::Light);
    assert_eq!(
        scroll_delta(ScrollUnit::Line, scalar(0.0), scalar(-1.0)),
        ScrollDelta::Lines(point(0.0, -1.0))
    );
}

#[test]
fn idle_and_suspended_applications_are_inactive() {
    assert!(!AppLifecycle::Idle.is_active());
    assert!(AppLifecycle::Running.is_active());
    assert!(AppLifecycle::WillSuspend.is_active());
    assert!(!AppLifecycle::Suspended.is_active());
    assert!(AppLifecycle::WillResume.is_active());
}

#[test]
fn lifecycle_agrees_with_the_host() {
    let pairs = [
        (bevy_window::AppLifecycle::Idle, AppLifecycle::Idle),
        (bevy_window::AppLifecycle::Running, AppLifecycle::Running),
        (bevy_window::AppLifecycle::WillSuspend, AppLifecycle::WillSuspend),
        (bevy_window::AppLifecycle::Suspended, AppLifecycle::Suspended),
        (bevy_window::AppLifecycle::WillResume, AppLifecycle::WillResume),
    ];
    for (host, own) in pairs {
        assert_eq!(host.is_active(), own.is_active());
    }
}

#[test]
fn scalars_compare_like_single_precision_numbers() {
    let values = [
        0.0f32, -0.0, 1.0, -1.0, 4.0, 3.999_999_8, 4.000_000_5, 1.0e-40, -1.0e-40, f32::MAX,
        f32::MIN, f32::INFINITY, f32::NEG_INFINITY, f32::NAN, f32::EPSILON, 1920.0,
    ];
    for a in values {
        assert_eq!(scalar(a).is_nan(), a.is_nan());
        for b in values {
            assert_eq!(scalar(a).le(scalar(b)), a <= b);
            assert_eq!(scalar(a).same_value(scalar(b)), a == b);
        }
    }
}

#[test]
fn scalar_constants_are_what_they_are_called() {
    assert_eq!(f32::from_bits(FOUR_PIXELS_BITS), 4.0);
    assert_eq!(f32::from_bits(SCALE_TOLERANCE_BITS), f32::EPSILON);
    assert_eq!(f32::from_bits(LARGEST_BITS), f32::MAX);
    assert_eq!(f32::from_bits(INFINITY_BITS), f32::INFINITY);
}

#[test]
fn rectangles_contain_their_edges() {
    let rect = Rect { min: point(10.0, 20.0), max: point(30.0, 40.0) };
    let host = bevy_math::Rect {
        min: bevy_math::Vec2::new(10.0, 20.0),
        max: bevy_math::Vec2::new(30.0, 40.0),
    };
    for (x, y) in [(10.0, 20.0), (30.0, 40.0), (9.9, 30.0), (20.0, 40.1), (20.0, 30.0)] {
        assert_eq!(
            rect.contains(point(x, y)),
            host.contains(bevy_math::Vec2::new(x, y))
        );
    }
    assert!(!rect.contains(point(f32::NAN, 30.0)));
    assert!(Rect::empty().contains(point(0.0, 0.0)));
}

#[test]
fn negative_zero_is_the_same_position() {
    assert!(point(0.0, -0.0).same_value(point(-0.0, 0.0)));
    let size = Size { width: scalar(f32::NAN), height: scalar(1.0) };
    assert!(!size.same_value(size));
}

#[test]
fn displays_start_with_the_default_size() {
    let display = BevyDisplay::default();
    assert_eq!(display.id, 1);
    assert_eq!(f32::from_bits(display.bounds.size.width.bits), 1920.0);
    assert_eq!(f32::from_bits(display.bounds.size.height.bits), 1080.0);

    let mut other = BevyDisplay::new(9);
    other.sync(Bounds {
        origin: point(100.0, -50.0),
        size: Size { width: scalar(1920.0), height: scalar(1080.0) },
    });
    assert_eq!(other.id, 9);
    assert_eq!(f32::from_bits(other.bounds.origin.y.bits), -50.0);
}

#[test]
fn display_uuid_is_its_identity() {
    let bytes = BevyDisplay::new(0x0102_0304_0506_0708).uuid();
    assert_eq!(bytes, [0, 0, 0, 0, 0, 0, 0, 0, 1, 2, 3, 4, 5, 6, 7, 8]);
    assert_eq!(uuid::Uuid::from_bytes(bytes).as_u128(), 0x0102_0304_0506_0708);
    assert_ne!(BevyDisplay::new(1).uuid(), BevyDisplay::new(2).uuid());
}
