use bevy_ecs::entity::Entity;
use bevy_gpui::geometry::Point;
use bevy_gpui::input::DispatchEventResult;
use bevy_gpui::input_state::{
    any_accepts, gpui_picking_backend, gpui_picking_hit, record_keyboard_dispatch,
    record_pointer_dispatch, record_text_input, Location, LocationTarget,
};
use bevy_gpui::scalar::Scalar;
use bevy_gpui::{gpui_wants_keyboard_input, gpui_wants_pointer_input, GpuiInputState};
use bevy_picking::pointer::PointerId;

fn point(x: f32, y: f32) -> Point {
    Point { x: Scalar { bits: x.to_bits() }, y: Scalar { bits: y.to_bits() } }
}

fn answer(propagate: bool, default_prevented: bool, pointer_hit: bool) -> DispatchEventResult {
    DispatchEventResult { propagate, default_prevented, pointer_hit }
}

#[test]
fn pointer_hit_claims_input_even_when_gpui_event_propagates() {
    let window = Entity::from_raw_u32(7).expect("test entity should be valid").to_bits();
    let mut state = GpuiInputState::default();

    record_pointer_dispatch(
        window,
        DispatchEventResult {
            propagate: true,
            default_prevented: false,
            pointer_hit: true,
        },
        &mut state,
    );

    assert!(state.claims_window(window));
}

#[test]
fn unhandled_pointer_event_does_not_claim_input() {
    let window = Entity::from_raw_u32(8).expect("test entity should be valid").to_bits();
    let mut state = GpuiInputState::default();

    record_pointer_dispatch(
        window,
        DispatchEventResult {
            propagate: true,
            default_prevented: false,
            pointer_hit: false,
        },
        &mut state,
    );

    assert!(!state.claims_window(window));
}

#[test]
fn picking_hit_blocks_lower_entities_only_for_claimed_window() {
    let claimed_window = 11;
    let other_window = 12;
    let blocker = 13;
    let mut input = GpuiInputState::default();
    record_pointer_dispatch(claimed_window, answer(true, false, true), &mut input);
    let location = Location {
        target: LocationTarget::Window(claimed_window),
        position: point(12.0, 34.0),
    };

    let hit = gpui_picking_hit(PointerId::Mouse, &location, blocker, &input)
        .expect("claimed window should emit a blocker hit");
    assert_eq!(hit.pointer, PointerId::Mouse);
    assert_eq!(hit.picks[0].0, blocker);
    assert_eq!(f32::from_bits(hit.order.bits), f32::MAX);

    let other_location = Location {
        target: LocationTarget::Window(other_window),
        position: point(0.0, 0.0),
    };
    assert!(gpui_picking_hit(PointerId::Mouse, &other_location, blocker, &input).is_none());
}

#[test]
fn picking_hit_carries_the_pointer_position() {
    let mut input = GpuiInputState::default();
    record_pointer_dispatch(1, answer(false, false, false), &mut input);
    let location = Location { target: LocationTarget::Window(1), position: point(3.0, 4.0) };
    let hit = gpui_picking_hit(PointerId::Mouse, &location, 5, &input).unwrap();
    assert_eq!(hit.picks.len(), 1);
    assert_eq!(hit.picks[0].1.camera, 5);
    assert_eq!(hit.picks[0].1.position, point(3.0, 4.0));
    assert_eq!(hit.picks[0].1.depth, Scalar { bits: 0 });
}

#[test]
fn backend_blocks_every_pointer_over_a_claimed_window() {
    let mut input = GpuiInputState::default();
    record_pointer_dispatch(1, answer(true, false, true), &mut input);
    let over = Location { target: LocationTarget::Window(1), position: point(0.0, 0.0) };
    let elsewhere = Location { target: LocationTarget::Window(2), position: point(0.0, 0.0) };
    let offscreen = Location { target: LocationTarget::Offscreen, position: point(0.0, 0.0) };
    let pointers = vec![
        (PointerId::Mouse, Some(over)),
        (PointerId::Touch(1), Some(elsewhere)),
        (PointerId::Touch(2), None),
        (PointerId::Touch(3), Some(offscreen)),
        (PointerId::Touch(4), Some(over)),
    ];
    let hits = gpui_picking_backend(9, &input, &pointers);
    let blocked: Vec<PointerId> = hits.iter().map(|hit| hit.pointer).collect();
    assert_eq!(blocked, vec![PointerId::Mouse, PointerId::Touch(4)]);
}

#[test]
fn each_way_of_claiming_the_pointer_counts() {
    for result in [answer(true, false, true), answer(false, false, false), answer(true, true, false)]
    {
        let mut state = GpuiInputState::default();
        record_pointer_dispatch(4, answer(true, false, false), &mut state);
        record_pointer_dispatch(4, result, &mut state);
        record_pointer_dispatch(4, answer(true, false, false), &mut state);
        assert!(state.claims_window(4));
        assert!(!state.claims_window(5));
        assert_eq!(state.default_prevented, result.default_prevented);
    }
}

#[test]
fn keyboard_answers_claim_the_keyboard() {
    let mut state = GpuiInputState::default();
    record_keyboard_dispatch(answer(true, false, true), &mut state);
    assert!(!state.wants_keyboard_input);
    record_keyboard_dispatch(answer(false, false, false), &mut state);
    assert!(state.wants_keyboard_input);
    let mut state = GpuiInputState::default();
    record_text_input(false, &mut state);
    assert!(!state.wants_keyboard_input);
    record_text_input(true, &mut state);
    assert!(state.wants_keyboard_input);
}

#[test]
fn run_conditions_follow_the_state() {
    assert!(!gpui_wants_pointer_input(None));
    assert!(!gpui_wants_keyboard_input(None));
    let mut state = GpuiInputState::default();
    record_pointer_dispatch(3, answer(true, false, true), &mut state);
    record_keyboard_dispatch(answer(true, true, false), &mut state);
    state.finish_pass(false, &vec![3]);
    assert!(gpui_wants_pointer_input(Some(&state)));
    assert!(gpui_wants_keyboard_input(Some(&state)));
}

#[test]
fn claims_persist_until_their_window_is_gone() {
    let mut state = GpuiInputState::default();
    record_pointer_dispatch(3, answer(true, true, true), &mut state);
    record_pointer_dispatch(4, answer(true, false, true), &mut state);
    state.begin_pass(true);
    assert!(!state.default_prevented);
    state.finish_pass(false, &vec![9, 3]);
    assert!(state.claims_window(3) && !state.claims_window(4));
    assert!(state.wants_pointer_input);
    assert!(!state.wants_keyboard_input);
    state.begin_pass(true);
    state.finish_pass(true, &vec![]);
    assert!(!state.wants_pointer_input);
    assert!(state.wants_keyboard_input);
}

#[test]
fn nothing_is_claimed_without_a_runtime() {
    let mut state = GpuiInputState::default();
    record_pointer_dispatch(3, answer(false, true, true), &mut state);
    state.finish_pass(true, &vec![3]);
    state.begin_pass(false);
    assert!(!state.claims_window(3));
    assert!(!state.wants_pointer_input && !state.wants_keyboard_input);
    assert!(!state.default_prevented);
}

#[test]
fn a_text_field_counts_only_for_roots_asked_about() {
    assert!(any_accepts(&vec![1, 2, 3], &vec![3]));
    assert!(!any_accepts(&vec![1, 2], &vec![3]));
    assert!(!any_accepts(&vec![], &vec![3]));
    assert!(!any_accepts(&vec![3], &vec![]));
}

#[test]
fn a_copy_of_the_ownership_stands_alone() {
    let mut state = GpuiInputState::default();
    record_pointer_dispatch(5, answer(true, true, false), &mut state);
    record_pointer_dispatch(9, answer(true, false, true), &mut state);
    let copy = state.clone();
    record_pointer_dispatch(6, answer(true, false, true), &mut state);
    assert!(copy.claims_window(5) && copy.claims_window(9));
    assert!(!copy.claims_window(6));
    assert!(copy.default_prevented);
    assert!(!copy.wants_keyboard_input);
    assert!(format!("{copy:?}").contains("default_prevented: true"));
}
