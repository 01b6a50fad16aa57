use bevy_camera::{NormalizedRenderTarget, RenderTarget};
use bevy_ecs::entity::{ContainsEntity, Entity};
use bevy_gpui::contexts::{
    exit_due, frame_due, note_materialized, note_removed, primary_context, take_scene,
    typed_window, ContextError, GpuiFeatures, GpuiRuntimeState, PrimaryError, RootSet, StartPlan,
    DRAIN_LIMIT,
};
use bevy_gpui::cursor::{CursorStyle, SystemCursorIcon, WindowBackgroundAppearance};
use bevy_gpui::geometry::{Bounds, Point, Rect, Size};
use bevy_gpui::host::HostTypes;
use bevy_gpui::platform::BevyPlatform;
use bevy_gpui::runtime::{ContextBinding, GpuiRuntime, OpenOutcome};
use bevy_gpui::scalar::Scalar;
use bevy_gpui::sync::{
    auto_attach_primary, bind_cameras, cleanup_orphaned_window_context, finish_sync,
    orphaned_window_contexts, prepare_window_close, take_window_changes, window_cursor,
    CameraBinding, ContextCamera, HostCamera, HostTarget,
};
use bevy_gpui::{GpuiContexts, GpuiRuntimeStatus, GpuiScene, GpuiViewHandle};
use bevy_window::WindowRef;
use std::rc::Rc;
use std::sync::Arc;

struct Host;

impl HostTypes for Host {
    type Handle = u32;
    type Display = ();
    type Atlas = ();
    type Snapshot = &'static str;
    type InputHandler = ();
    type FrameCallback = ();
    type InputCallback = ();
    type FlagCallback = ();
    type ResizeCallback = ();
    type UnitCallback = ();
    type ShouldCloseCallback = ();
    type CloseCallback = ();
    type HitTestCallback = ();
    type ClipboardItem = ();
    type RootFactory = &'static str;
}

struct Panel;

const EVERYTHING: GpuiFeatures = GpuiFeatures { render: true, picking: true };

fn point(x: f32, y: f32) -> Point {
    Point { x: Scalar { bits: x.to_bits() }, y: Scalar { bits: y.to_bits() } }
}

fn platform() -> BevyPlatform<Host> {
    BevyPlatform::new(Arc::new(()), Rc::new(()))
}

fn contexts() -> GpuiContexts<Host> {
    GpuiContexts { state: GpuiRuntimeState::default(), primary: vec![] }
}

fn set(contexts: &mut GpuiContexts<Host>, factory: &'static str) -> RootSet<Panel> {
    let id = contexts.reserve_root(EVERYTHING).unwrap();
    contexts.set_root::<Panel, ()>(id, Ok(()), factory).unwrap_or_else(|_| unreachable!())
}

fn open(runtime: &mut GpuiRuntime<Host>, platform: &mut BevyPlatform<Host>, id: u64) {
    runtime.begin_open_root(platform, id).unwrap();
    let bounds = Bounds {
        origin: point(0.0, 0.0),
        size: Size { width: Scalar { bits: 0 }, height: Scalar { bits: 0 } },
    };
    platform.open_window(id as u32, bounds).unwrap();
    assert!(runtime.finish_open_root(platform, id, OpenOutcome::Opened(id as u32)));
}

fn shown(id: u64, window: u64, order: i64) -> CameraBinding {
    let viewport = Rect { min: point(0.0, 0.0), max: point(1.0, 1.0) };
    CameraBinding { id, binding: ContextBinding { window: Some(window), viewport, order } }
}

#[test]
fn roots_get_ids_of_their_own() {
    let mut contexts = contexts();
    let first = set(&mut contexts, "first");
    assert_eq!((first.context.id(), first.handle.id()), (1, 1));
    let id = contexts.reserve_root(EVERYTHING).unwrap();
    assert_eq!(id, 2);
    let failed = contexts.set_root_with_options::<Panel, &str>(id, Err("broken"), "second");
    assert!(matches!(failed, Err("broken")));
    assert!(contexts.state.root_factory(2).is_none());
    let third = set(&mut contexts, "third");
    assert_eq!(third.handle.id(), 3);
    assert_eq!(contexts.state.root_factory(3), Some(&"third"));
    let copied = third.handle;
    assert_eq!(copied.clone().id(), 3);
}

#[test]
fn roots_need_a_build_that_draws() {
    let mut contexts = contexts();
    let features = GpuiFeatures { render: false, picking: true };
    assert_eq!(contexts.reserve_root(features), Err(ContextError::RenderDisabled));
    assert_eq!(contexts.reserve_root(EVERYTHING), Ok(1));
    assert_eq!(
        ContextError::RenderDisabled.message(),
        "GpuiContexts::set_root requires bevy_gpui's `render` feature"
    );
}

#[test]
fn the_primary_root_has_to_be_unique() {
    let mut contexts = contexts();
    assert!(matches!(contexts.primary::<Panel>(), Err(PrimaryError::Missing)));
    let first = set(&mut contexts, "first");
    contexts.primary.push(first.context);
    assert_eq!(contexts.primary::<Panel>().unwrap_or_else(|_| unreachable!()).id(), 1);
    let second = set(&mut contexts, "second");
    contexts.primary.push(second.context);
    assert!(matches!(contexts.primary::<Panel>(), Err(PrimaryError::Ambiguous)));
    assert_eq!(primary_context(&vec![]), Err(PrimaryError::Missing));
    assert_eq!(primary_context(&vec![second.context]), Ok(second.context));
    assert_eq!(primary_context(&contexts.primary), Err(PrimaryError::Ambiguous));
}

#[test]
fn handles_lead_to_open_roots() {
    let mut contexts = contexts();
    let mut status = GpuiRuntimeStatus::default();
    let root = set(&mut contexts, "root");
    assert_eq!(contexts.update(&root.handle), Err(ContextError::NotReady));
    let mut platform = platform();
    contexts.state.install_runtime(&mut status, &mut platform, 1);
    assert_eq!(contexts.update(&root.handle), Err(ContextError::StaleOrPending));
    let mut runtime = contexts.state.take_runtime().unwrap();
    open(&mut runtime, &mut platform, 1);
    contexts.state.put_runtime(runtime);
    assert_eq!(contexts.update(&root.handle), Ok(&1));
    assert_eq!(typed_window(Some(1)), Ok(1));
    assert_eq!(typed_window::<u32>(None), Err(ContextError::WrongType));
    assert_eq!(ContextError::NotReady.message(), "the embedded GPUI runtime is not ready yet");
    assert_eq!(
        ContextError::StaleOrPending.message(),
        "GPUI view handle is stale or still pending"
    );
    assert_eq!(ContextError::WrongType.message(), "GPUI view handle has the wrong view type");
}

#[test]
fn roots_survive_a_replaced_device() {
    let mut contexts = contexts();
    let mut status = GpuiRuntimeStatus::default();
    let mut platform = platform();
    let state = &mut contexts.state;
    assert!(matches!(state.plan_start(&mut status, None, None), StartPlan::Wait));
    assert!(matches!(
        state.plan_start(&mut status, None, Some(1)),
        StartPlan::Start { shutdown: None }
    ));
    state.install_runtime(&mut status, &mut platform, 1);
    assert!(status.ready);
    assert_eq!((status.gpu_generation, status.recoveries), (1, 0));
    set(&mut contexts, "one");
    set(&mut contexts, "two");
    set(&mut contexts, "three");
    let state = &mut contexts.state;
    let mut wanted = state.roots_to_materialize(&vec![1, 2, 9]);
    wanted.sort();
    assert_eq!(wanted, vec![1, 2]);
    let mut runtime = state.take_runtime().unwrap();
    open(&mut runtime, &mut platform, 1);
    state.put_runtime(runtime);
    note_materialized(&mut status);
    assert_eq!(status.roots, 1);
    assert_eq!(state.roots_to_materialize(&vec![1, 2, 9]), vec![2]);
    let plan = state.plan_start(&mut status, Some(&platform), Some(1));
    assert!(matches!(plan, StartPlan::Keep));

    match state.plan_start(&mut status, Some(&platform), Some(2)) {
        StartPlan::Start { shutdown } => assert!(shutdown.is_some()),
        _ => panic!("a replaced device restarts the application"),
    }
    assert!(!status.ready);
    assert_eq!((status.roots, status.recoveries), (0, 1));
    assert!(state.roots_to_materialize(&vec![1, 2, 3]).is_empty());
    state.install_runtime(&mut status, &mut platform, 2);
    let mut wanted = state.roots_to_materialize(&vec![1, 2, 3]);
    wanted.sort();
    assert_eq!(wanted, vec![1, 2, 3]);
    assert_eq!(state.root_factory(1), Some(&"one"));
    assert_eq!(status.gpu_generation, 2);

    let mut runtime = state.take_runtime().unwrap();
    for id in [1, 3] {
        open(&mut runtime, &mut platform, id);
        note_materialized(&mut status);
    }
    state.put_runtime(runtime);
    let plan = state.plan_start(&mut status, Some(&platform), Some(2));
    assert!(matches!(plan, StartPlan::Keep));
    assert_eq!(state.roots_to_materialize(&vec![1, 2, 3]), vec![2]);
    assert_eq!((status.roots, status.recoveries), (2, 1));
}

#[test]
fn refused_roots_leave_no_announcement() {
    let mut runtime = GpuiRuntime::<Host>::new();
    let mut platform = platform();
    runtime.begin_open_root(&mut platform, 1).unwrap();
    assert!(!runtime.finish_open_root(&mut platform, 1, OpenOutcome::Refused));
    runtime.begin_open_root(&mut platform, 2).unwrap();
    assert!(!runtime.finish_open_root(&mut platform, 2, OpenOutcome::Unreachable));
    assert!(runtime.begin_open_root(&mut platform, 3).is_err());
    assert!(runtime.context_ids().is_empty());
}

#[test]
fn closing_a_root_undoes_opening_it() {
    let mut runtime = GpuiRuntime::<Host>::new();
    let mut platform = platform();
    open(&mut runtime, &mut platform, 1);
    open(&mut runtime, &mut platform, 2);
    runtime.focused_contexts.insert(50, 1);
    runtime.focused_contexts.insert(60, 2);
    assert_eq!(runtime.begin_close_context(1), Some(1));
    assert_eq!(runtime.begin_close_context(1), None);
    assert!(runtime.contexts.contains_key(&1));
    assert_eq!(runtime.finish_close_context(&mut platform, 1).unwrap().handle, 1);
    assert!(!runtime.contexts.contains_key(&1));
    assert!(!runtime.focused_contexts.contains_key(&50));
    assert_eq!(runtime.focused_contexts.get(&60), Some(&2));
    assert!(platform.window(1).is_none() && platform.window(2).is_some());
}

fn camera(entity: u64, order: i64) -> HostCamera {
    HostCamera {
        entity,
        is_active: true,
        target: HostTarget::PrimaryWindow,
        order,
        has_context: false,
    }
}

#[test]
fn the_frontmost_primary_camera_gets_a_root() {
    let cameras = vec![
        camera(1, 3),
        camera(2, 5),
        HostCamera { target: HostTarget::Window(70), ..camera(3, 5) },
        HostCamera { is_active: false, ..camera(4, 9) },
        HostCamera { target: HostTarget::Window(71), ..camera(5, 9) },
        HostCamera { target: HostTarget::Offscreen, ..camera(6, 9) },
        camera(7, 4),
    ];
    assert_eq!(auto_attach_primary(true, &cameras, Some(70)), Some(3));
    assert_eq!(auto_attach_primary(false, &cameras, Some(70)), None);
    assert_eq!(auto_attach_primary(true, &cameras, None), None);
    let mut attached = cameras.clone();
    attached[0].has_context = true;
    assert_eq!(auto_attach_primary(true, &attached, Some(70)), None);
    let mut elsewhere = cameras;
    elsewhere[4].has_context = true;
    assert_eq!(auto_attach_primary(true, &elsewhere, Some(70)), Some(3));
    assert_eq!(auto_attach_primary(true, &vec![], Some(70)), None);
}

#[test]
fn targets_agree_with_the_host() {
    let primary = Entity::from_raw_u32(3).unwrap();
    let other = Entity::from_raw_u32(4).unwrap();
    for (target, own) in [
        (RenderTarget::Window(WindowRef::Primary), HostTarget::PrimaryWindow),
        (RenderTarget::Window(WindowRef::Entity(other)), HostTarget::Window(other.to_bits())),
    ] {
        for main in [Some(primary), None] {
            let host = match target.normalize(main) {
                Some(NormalizedRenderTarget::Window(window)) => Some(window.entity().to_bits()),
                _ => None,
            };
            assert_eq!(own.window(main.map(|main| main.to_bits())), host);
        }
    }
    assert_eq!(HostTarget::Offscreen.window(Some(1)), None);
}

#[test]
fn cameras_stop_with_their_window() {
    let context = |entity, target| ContextCamera { entity, id: entity + 100, target };
    let cameras = vec![
        context(1, HostTarget::PrimaryWindow),
        context(2, HostTarget::Window(50)),
        context(3, HostTarget::Offscreen),
        context(4, HostTarget::Window(60)),
    ];
    let entities = |cameras: Vec<ContextCamera>| -> Vec<u64> {
        cameras.iter().map(|camera| camera.entity).collect()
    };
    assert_eq!(entities(prepare_window_close(&vec![60, 70], &cameras, Some(70))), vec![1, 4]);
    assert!(prepare_window_close(&vec![], &cameras, Some(70)).is_empty());
    assert_eq!(entities(orphaned_window_contexts(&cameras, &vec![50], Some(70))), vec![1, 4]);
    assert_eq!(entities(orphaned_window_contexts(&cameras, &vec![50], None)), vec![4]);

    let mut contexts = contexts();
    let mut status = GpuiRuntimeStatus { roots: 1, ..GpuiRuntimeStatus::default() };
    set(&mut contexts, "one");
    cleanup_orphaned_window_context(&mut contexts.state, &mut status, 1);
    assert_eq!(status.roots, 0);
    assert!(contexts.state.root_factory(1).is_none());
    note_removed(&mut status);
    assert_eq!(status.roots, 0);
}

#[test]
fn synchronization_orders_the_roots_of_each_window() {
    let mut runtime = GpuiRuntime::<Host>::new();
    let mut platform = platform();
    for id in 1..=5 {
        open(&mut runtime, &mut platform, id);
    }
    bind_cameras(&mut runtime, &vec![shown(1, 50, 0)]);
    let mut stale = runtime.begin_sync(&vec![1, 2, 3, 9]);
    stale.sort();
    assert_eq!(stale, vec![4, 5]);
    assert!(runtime.mapped(50).is_empty());
    let image = CameraBinding {
        id: 4,
        binding: ContextBinding {
            window: None,
            viewport: Rect { min: point(0.0, 0.0), max: point(1.0, 1.0) },
            order: 7,
        },
    };
    bind_cameras(
        &mut runtime,
        &vec![shown(1, 50, 2), shown(2, 50, -1), shown(9, 50, 0), shown(3, 50, 2), image, shown(5, 60, 0)],
    );
    assert_eq!(runtime.mapped(50), vec![2, 1, 3]);
    assert_eq!(runtime.mapped(60), vec![5]);
    assert_eq!(runtime.contexts.get(&4).unwrap().window, None);
    assert_eq!(runtime.contexts.get(&1).unwrap().order, 2);
    assert!(!runtime.contexts.contains_key(&9));
}

#[test]
fn a_synchronization_ends_with_a_count() {
    let mut contexts = contexts();
    let mut status = GpuiRuntimeStatus { roots: 9, ..GpuiRuntimeStatus::default() };
    for factory in ["one", "two", "three"] {
        set(&mut contexts, factory);
    }
    finish_sync(&mut contexts.state, &mut status, &vec![]);
    assert_eq!(status.roots, 0);
    assert!(contexts.state.root_factory(2).is_some());
    let mut platform = platform();
    contexts.state.install_runtime(&mut status, &mut platform, 1);
    let mut runtime = contexts.state.take_runtime().unwrap();
    open(&mut runtime, &mut platform, 1);
    open(&mut runtime, &mut platform, 3);
    contexts.state.put_runtime(runtime);
    finish_sync(&mut contexts.state, &mut status, &vec![1, 3, 7]);
    assert_eq!(status.roots, 2);
    assert!(contexts.state.root_factory(2).is_none());
    assert!(contexts.state.root_factory(3).is_some());
    assert_eq!(contexts.state.runtime().unwrap().context_ids().len(), 2);
}

#[test]
fn the_front_root_decides_cursor_and_requests() {
    let mut runtime = GpuiRuntime::<Host>::new();
    let mut platform = platform();
    open(&mut runtime, &mut platform, 1);
    open(&mut runtime, &mut platform, 2);
    let mut back = platform.take_window(1).unwrap();
    back.set_title("back");
    back.toggle_fullscreen();
    back.minimize();
    back.set_background_appearance(WindowBackgroundAppearance::Blurred);
    platform.put_window(1, back);
    let mut front = platform.take_window(2).unwrap();
    front.set_title("front");
    front.set_cursor_style(CursorStyle::OpenHand);
    front.set_background_appearance(WindowBackgroundAppearance::Opaque);
    platform.put_window(2, front);
    assert_eq!(window_cursor(&platform, &vec![]), SystemCursorIcon::Default);
    assert_eq!(window_cursor(&platform, &vec![1, 2]), SystemCursorIcon::Grab);
    let (changes, unsupported) = take_window_changes(&mut platform, &vec![1, 2]);
    assert_eq!(changes.title.as_deref(), Some("front"));
    assert_eq!(changes.fullscreen, Some(true));
    assert!(changes.minimize && !changes.maximize && !changes.focus);
    assert_eq!(changes.transparent, Some(false));
    assert_eq!(changes.cursor_visible, None);
    assert_eq!(unsupported, vec![WindowBackgroundAppearance::Blurred]);
    let (changes, unsupported) = take_window_changes(&mut platform, &vec![1, 2, 9]);
    assert!(changes.title.is_none() && !changes.minimize && unsupported.is_empty());
}

#[test]
fn scenes_are_counted_when_their_camera_takes_them() {
    let mut runtime = GpuiRuntime::<Host>::new();
    let mut platform = platform();
    let mut status = GpuiRuntimeStatus::default();
    open(&mut runtime, &mut platform, 1);
    let mut window = platform.take_window(1).unwrap();
    window.draw("scene");
    platform.put_window(1, window);
    let scene = take_scene(&mut platform, 1, true, &mut status).unwrap();
    assert_eq!((*scene.snapshot, scene.generation), ("scene", 1));
    let shared = scene.clone();
    assert!(Arc::ptr_eq(&scene.snapshot, &shared.snapshot));
    assert_eq!(status.scenes_built, 1);
    assert!(take_scene(&mut platform, 1, true, &mut status).is_none());
    let mut window = platform.take_window(1).unwrap();
    window.draw("lost");
    platform.put_window(1, window);
    assert!(take_scene(&mut platform, 1, false, &mut status).is_none());
    assert!(take_scene(&mut platform, 1, true, &mut status).is_none());
    assert_eq!(status.scenes_built, 1);
    let own = GpuiScene::new("own", 4);
    assert_eq!(own.generation, 4);
}

#[test]
fn frames_are_requested_for_dirty_or_missing_content() {
    assert!(frame_due(Some(true), false));
    assert!(frame_due(None, true));
    assert!(!frame_due(Some(false), false));
    assert!(!frame_due(None, false));
    assert_eq!(DRAIN_LIMIT, 1024);
}

#[test]
fn a_quit_request_is_used_up() {
    let mut platform = platform();
    let callbacks = platform.begin_quit();
    platform.finish_quit(callbacks);
    assert!(!exit_due(&mut platform, false));
    assert!(!exit_due(&mut platform, true));
    let callbacks = platform.begin_quit();
    platform.finish_quit(callbacks);
    assert!(exit_due(&mut platform, true));
}

#[test]
fn the_highest_camera_is_in_front() {
    let mut runtime = GpuiRuntime::new();
    let mut platform = platform();
    for id in 1..=3 {
        open(&mut runtime, &mut platform, id);
    }
    runtime.begin_sync(&vec![1, 2, 3]);
    bind_cameras(&mut runtime, &vec![shown(1, 9, 7), shown(2, 9, -1), shown(3, 9, 3)]);
    assert_eq!(runtime.mapped(9), vec![2, 3, 1]);
}

#[test]
fn removed_roots_are_not_built_again() {
    let mut contexts = contexts();
    let mut status = GpuiRuntimeStatus::default();
    let mut platform = platform();
    let root = set(&mut contexts, "root");
    let kept = set(&mut contexts, "kept");
    let pending = set(&mut contexts, "pending");
    contexts.state.install_runtime(&mut status, &mut platform, 1);
    let mut runtime = contexts.state.take_runtime().unwrap();
    open(&mut runtime, &mut platform, 1);
    open(&mut runtime, &mut platform, 2);
    let stale = runtime.begin_sync(&vec![2]);
    assert_eq!(stale, vec![1]);
    assert_eq!(runtime.begin_close_context(1), Some(1));
    assert!(runtime.finish_close_context(&mut platform, 1).is_some());
    bind_cameras(&mut runtime, &vec![shown(2, 9, 0)]);
    contexts.state.put_runtime(runtime);
    finish_sync(&mut contexts.state, &mut status, &vec![2]);
    assert_eq!(status.roots, 1);
    assert!(contexts.state.roots_to_materialize(&vec![1, 2, 3]).is_empty());
    assert!(contexts.state.root_factory(3).is_none());
    assert_eq!(contexts.update(&pending.handle), Err(ContextError::StaleOrPending));
    assert_eq!(contexts.update(&root.handle), Err(ContextError::StaleOrPending));
    assert_eq!(contexts.update(&kept.handle), Ok(&2));
    let plan = contexts.state.plan_start(&mut status, Some(&platform), Some(2));
    assert!(matches!(plan, StartPlan::Start { shutdown: Some(_) }));
    contexts.state.install_runtime(&mut status, &mut platform, 2);
    assert_eq!(contexts.state.roots_to_materialize(&vec![1, 2, 3]), vec![2]);
}

#[test]
fn a_token_names_the_root_of_its_context() {
    let mut contexts = contexts();
    assert!(contexts.state.has_free_id());
    let root = set(&mut contexts, "root");
    let token = GpuiViewHandle::<Panel>::from_context(&root.context);
    assert_eq!(token.id(), root.handle.id());
}

fn draw(platform: &mut BevyPlatform<Host>, id: u64, scene: &'static str) {
    let mut window = platform.take_window(id).unwrap();
    window.draw(scene);
    platform.put_window(id, window);
}

#[test]
fn scene_generations_grow_across_a_replaced_device() {
    let mut contexts = contexts();
    let mut status = GpuiRuntimeStatus::default();
    let mut old = platform();
    set(&mut contexts, "root");
    set(&mut contexts, "quiet");
    let state = &mut contexts.state;
    state.install_runtime(&mut status, &mut old, 1);
    let mut runtime = state.take_runtime().unwrap();
    open(&mut runtime, &mut old, 1);
    open(&mut runtime, &mut old, 2);
    state.put_runtime(runtime);
    draw(&mut old, 1, "first");
    draw(&mut old, 1, "second");
    let before = take_scene(&mut old, 1, true, &mut status).unwrap();
    assert_eq!(before.generation, 2);

    let plan = state.plan_start(&mut status, Some(&old), Some(2));
    assert!(matches!(plan, StartPlan::Start { shutdown: Some(_) }));
    let plan = state.plan_start(&mut status, None, Some(3));
    assert!(matches!(plan, StartPlan::Start { shutdown: None }));
    let mut fresh = platform();
    state.install_runtime(&mut status, &mut fresh, 3);
    let mut runtime = state.take_runtime().unwrap();
    open(&mut runtime, &mut fresh, 1);
    open(&mut runtime, &mut fresh, 2);
    state.put_runtime(runtime);
    draw(&mut fresh, 1, "third");
    draw(&mut fresh, 2, "own");
    let after = take_scene(&mut fresh, 1, true, &mut status).unwrap();
    assert_eq!((*after.snapshot, after.generation), ("third", 3));
    assert_eq!(take_scene(&mut fresh, 2, true, &mut status).unwrap().generation, 1);
    let generations = fresh.scene_generations();
    assert_eq!((generations.get(&1), generations.get(&2)), (Some(&3), Some(&1)));
}

#[test]
fn a_window_opened_again_goes_on_counting_scenes() {
    let mut runtime = GpuiRuntime::<Host>::new();
    let mut platform = platform();
    open(&mut runtime, &mut platform, 1);
    draw(&mut platform, 1, "scene");
    open(&mut runtime, &mut platform, 1);
    assert_eq!(platform.window(1).unwrap().scene_generation, 1);
    assert!(platform.window(1).unwrap().latest_snapshot.is_none());
}
