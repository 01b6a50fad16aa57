use bevy_ecs::entity::Entity;
use bevy_ecs::world::World;
use bevy_gpui::bridge::BevyMutationQueue;
use bevy_gpui::contexts::GpuiFeatures;
use bevy_gpui::dispatcher::BevyDispatcher;
use bevy_gpui::image::{ExternalImageIds, GpuiBevyImage, GpuiImageRegistry};
use bevy_gpui::plugin::{
    picking_blocker, BuildError, GpuiResource, GpuiSystem, HostAnchor, HostPlugins, HostSchedule,
};
use bevy_gpui::render::{
    atlas_format, plan_pass, AtlasFormat, DevicePoint, GpuiGpuBridge, GpuiRenderState, PassStart,
    PassView, PhysicalPoint, RendererKey, ATLAS_USAGES,
};
use bevy_gpui::{GpuiAccessibility, GpuiPlugin, GpuiRenderOrder, GpuiSystems};
use bevy_render::render_resource::{TextureFormat, TextureUsages};
use std::sync::Arc;

struct Counter(u32);

const EVERYTHING: GpuiFeatures = GpuiFeatures { render: true, picking: true };

const DEFAULT_HOST: HostPlugins =
    HostPlugins { render: true, window: true, winit: true, picking: true };

#[test]
fn deferred_commands_apply_only_when_the_bridge_is_drained() {
    let mut queue: BevyMutationQueue<Box<dyn FnOnce(&mut World)>> = BevyMutationQueue::default();
    let mut world = World::new();
    world.insert_non_send(Counter(0));
    queue.push(Box::new(|world: &mut World| {
        world.non_send_mut::<Counter>().0 += 1;
    }));

    assert_eq!(world.non_send::<Counter>().0, 0);
    while let Some(mutation) = queue.next_mutation() {
        mutation(&mut world);
    }
    assert_eq!(world.non_send::<Counter>().0, 1);
}

#[test]
fn mutations_apply_in_order() {
    let mut queue = BevyMutationQueue::default();
    queue.push(1);
    queue.push(2);
    assert_eq!(queue.next_mutation(), Some(1));
    queue.push(3);
    assert_eq!(queue.next_mutation(), Some(2));
    assert_eq!(queue.next_mutation(), Some(3));
    assert_eq!(queue.next_mutation(), None);
}

#[test]
fn registry_does_not_keep_dropped_bevy_images_alive() {
    let mut registry = GpuiImageRegistry::default();
    let mut ids = ExternalImageIds::default();
    let mut image = GpuiBevyImage::new(&mut ids, "handle");
    let id = image.id();
    registry.register(id, *image.handle());
    image.note_registry(0);
    let image = Arc::new(image);
    let retained_by_view = image.clone();
    assert!(registry.asset_id(id).is_some());

    assert!(Arc::into_inner(image).is_none());
    assert!(registry.asset_id(id).is_some());
    let last = Arc::into_inner(retained_by_view).expect("the view held the last reference");
    for known in last.into_registries() {
        assert_eq!(known, 0);
        registry.forget(id);
    }
    assert!(registry.asset_id(id).is_none());
}

#[test]
fn images_have_ids_of_their_own_and_remember_registries_once() {
    let mut ids = ExternalImageIds::default();
    let mut first = GpuiBevyImage::new(&mut ids, 'a');
    let second = GpuiBevyImage::new(&mut ids, 'b');
    assert_eq!((first.id(), second.id()), (1, 2));
    assert_eq!(*second.handle(), 'b');
    first.note_registry(5);
    first.note_registry(6);
    first.note_registry(5);
    assert_eq!(first.into_registries(), vec![5, 6]);
}

#[test]
fn missing_images_are_reported_once() {
    let mut registry = GpuiImageRegistry::default();
    registry.register(1, "asset");
    assert!(registry.resolve_surface(1, true));
    assert!(!registry.take_missing());
    assert!(!registry.resolve_surface(1, false));
    assert!(!registry.resolve_surface(2, true));
    assert!(registry.take_missing());
    assert!(!registry.take_missing());
    assert_eq!(registry.asset_id(1), Some(&"asset"));
}

#[test]
fn gpu_bridge_starts_without_a_published_device() {
    assert!(GpuiGpuBridge::<()>::default().snapshot().is_none());
}

#[test]
fn published_devices_have_growing_generations() {
    let mut bridge = GpuiGpuBridge::default();
    assert_eq!(bridge.publish(Arc::new("one")), 1);
    assert_eq!(bridge.publish(Arc::new("two")), 2);
    let (generation, atlas) = bridge.snapshot().unwrap();
    assert_eq!((generation, *atlas), (2, "two"));
}

#[test]
fn renderer_cache_key_isolated_by_view_and_format() {
    let first_view = Entity::from_raw_u32(1).unwrap().to_bits();
    let second_view = Entity::from_raw_u32(2).unwrap().to_bits();
    let format = TextureFormat::Rgba8UnormSrgb;

    assert_ne!(
        RendererKey {
            view: first_view,
            format,
        },
        RendererKey {
            view: second_view,
            format,
        }
    );
}

#[test]
fn renderers_are_kept_per_view_and_format() {
    let key = |view, format| RendererKey { view, format };
    let mut state: GpuiRenderState<(), &str> = GpuiRenderState::default();
    let plain = key(1, TextureFormat::Rgba8UnormSrgb);
    let hdr = key(1, TextureFormat::Rgba16Float);
    let other = key(2, TextureFormat::Rgba8UnormSrgb);
    assert!(plain.same(&plain) && !plain.same(&hdr) && !plain.same(&other));
    for (key, name) in [(plain, "plain"), (hdr, "hdr"), (other, "other")] {
        assert!(!state.has_renderer(&key));
        state.insert_renderer(key, name);
    }
    assert!(state.has_renderer(&hdr));
    assert_eq!(state.take_renderer(&hdr), Some("hdr"));
    assert!(!state.has_renderer(&hdr));
    assert_eq!(state.take_renderer(&hdr), None);
    state.insert_renderer(hdr, "hdr");
    assert!(state.record_view(1));
    assert!(!state.record_view(1));
    state.cleanup_view(1);
    assert!(!state.has_renderer(&plain) && !state.has_renderer(&hdr));
    assert!(state.has_renderer(&other));
    assert!(state.record_view(1));
}

#[test]
fn a_replaced_device_drops_its_resources() {
    let mut state: GpuiRenderState<&str, ()> = GpuiRenderState::default();
    assert!(state.cached_atlas().is_none());
    assert_eq!(*state.atlas(Arc::new("first")), "first");
    assert_eq!(*state.atlas(Arc::new("second")), "first");
    let key = RendererKey { view: 1, format: TextureFormat::Bgra8Unorm };
    state.insert_renderer(key, ());
    state.record_view(1);
    state.reset();
    assert!(state.cached_atlas().is_none());
    assert!(!state.has_renderer(&key));
    assert!(state.record_view(1));
}

#[test]
fn the_atlas_takes_the_first_format_the_device_allows() {
    let needed = (TextureUsages::TEXTURE_BINDING | TextureUsages::COPY_DST).bits();
    assert_eq!(needed, ATLAS_USAGES);
    let more = needed | TextureUsages::RENDER_ATTACHMENT.bits();
    let copy = TextureUsages::COPY_DST.bits();
    assert_eq!(atlas_format(more, more), Some(AtlasFormat::Bgra8Unorm));
    assert_eq!(atlas_format(copy, needed), Some(AtlasFormat::Rgba8Unorm));
    assert_eq!(atlas_format(copy, TextureUsages::TEXTURE_BINDING.bits()), None);
    assert_eq!(atlas_format(0, 0), None);
}

fn view(viewport_size: Option<PhysicalPoint>) -> PassView {
    PassView {
        view: 3,
        format: TextureFormat::Rgba16Float,
        viewport_size,
        viewport_origin: None,
        target_size: None,
    }
}

#[test]
fn views_without_an_area_are_not_drawn() {
    assert!(plan_pass(&view(None), 0, 0).is_none());
    assert!(plan_pass(&view(Some(PhysicalPoint { x: 0, y: 5 })), 0, 0).is_none());
    assert!(plan_pass(&view(Some(PhysicalPoint { x: 5, y: 0 })), 0, 0).is_none());
}

#[test]
fn a_pass_covers_its_viewport() {
    let plan = plan_pass(&view(Some(PhysicalPoint { x: 640, y: 480 })), 0, 0).unwrap();
    assert_eq!(plan.size, DevicePoint { x: 640, y: 480 });
    assert_eq!(plan.origin, DevicePoint { x: 0, y: 0 });
    assert_eq!(plan.target_size, plan.size);
    assert!(!plan.uses_filters);
    assert_eq!(plan.key, RendererKey { view: 3, format: TextureFormat::Rgba16Float });

    let mut part = view(Some(PhysicalPoint { x: 10, y: u32::MAX }));
    part.viewport_origin = Some(PhysicalPoint { x: 7, y: 0x8000_0000 });
    part.target_size = Some(PhysicalPoint { x: 100, y: 200 });
    let plan = plan_pass(&part, 0, 2).unwrap();
    assert_eq!(plan.size, DevicePoint { x: 10, y: -1 });
    assert_eq!(plan.origin, DevicePoint { x: 7, y: i32::MIN });
    assert_eq!(plan.target_size, DevicePoint { x: 100, y: 200 });
    assert!(plan.uses_filters);
    assert!(plan_pass(&part, 1, 0).unwrap().uses_filters);
}

#[test]
fn due_tasks_join_the_queue_and_run_within_a_limit() {
    let mut dispatcher = BevyDispatcher::new();
    dispatcher.dispatch_on_main_thread("now");
    dispatcher.dispatch_after(100, 50, "late");
    dispatcher.dispatch_after(100, 10, "soon");
    dispatcher.dispatch_after(100, 20, "sooner or later");
    let mut budget = dispatcher.begin_drain(120, 2);
    assert_eq!(dispatcher.next_runnable(&mut budget), Some("now"));
    assert_eq!(dispatcher.next_runnable(&mut budget), Some("soon"));
    assert_eq!(dispatcher.next_runnable(&mut budget), None);
    assert_eq!(budget.drained, 2);
    let mut budget = dispatcher.begin_drain(150, 1024);
    assert_eq!(dispatcher.next_runnable(&mut budget), Some("sooner or later"));
    assert_eq!(dispatcher.next_runnable(&mut budget), Some("late"));
    assert_eq!(dispatcher.next_runnable(&mut budget), None);
    assert_eq!(budget.drained, 2);
}

#[test]
fn the_last_waiting_task_takes_a_due_one_s_place() {
    let mut dispatcher = BevyDispatcher::new();
    for (deadline, name) in [(1, "a"), (9, "b"), (1, "c"), (1, "d")] {
        dispatcher.dispatch_after(0, deadline, name);
    }
    dispatcher.release_expired(1);
    let mut budget = dispatcher.begin_drain(1, 10);
    let mut order = Vec::new();
    while let Some(name) = dispatcher.next_runnable(&mut budget) {
        order.push(name);
    }
    assert_eq!(order, vec!["a", "d", "c"]);
}

#[test]
fn plugin_is_an_ordinary_bevy_plugin() {
    let plan = GpuiPlugin::default().build(EVERYTHING, DEFAULT_HOST).unwrap();

    assert!(plan.resources.contains(&GpuiResource::InputState));
}

#[test]
fn plugin_installs_public_schedule_sets() {
    let plan = GpuiPlugin::default().build(EVERYTHING, DEFAULT_HOST).unwrap();
    let sets: Vec<GpuiSystems> = plan.sets.iter().map(|order| order.set).collect();
    assert_eq!(
        sets,
        vec![
            GpuiSystems::DriveExecutor,
            GpuiSystems::Input,
            GpuiSystems::ApplyDeferredBridge,
            GpuiSystems::WindowSync,
            GpuiSystems::BuildScene,
        ]
    );
    assert_eq!(plan.sets[1].after, Some(HostAnchor::Input));
    assert_eq!(plan.sets[3].after, Some(HostAnchor::CameraUpdate));
}

#[test]
#[should_panic(expected = "GpuiPlugin must be added after Bevy's RenderPlugin")]
fn render_feature_rejects_installation_before_bevy_renderer() {
    let host = HostPlugins { render: false, window: false, winit: false, picking: false };
    if let Err(error) = GpuiPlugin::default().build(EVERYTHING, host) {
        panic!("{}", error.message());
    }
}

#[test]
fn the_first_missing_plugin_is_reported() {
    let plugin = GpuiPlugin::default();
    let host = HostPlugins { winit: false, ..DEFAULT_HOST };
    assert_eq!(plugin.build(EVERYTHING, host).err(), Some(BuildError::MissingWinit));
    let host = HostPlugins { window: false, ..host };
    assert_eq!(plugin.build(EVERYTHING, host).err(), Some(BuildError::MissingWindow));
    let without_render = GpuiFeatures { render: false, picking: true };
    assert!(plugin.build(without_render, host).is_ok());
    assert_eq!(
        BuildError::MissingWindow.message(),
        "GpuiPlugin must be added after Bevy's WindowPlugin (normally after DefaultPlugins)"
    );
    assert_eq!(
        BuildError::MissingWinit.message(),
        "GpuiPlugin must be added after Bevy's WinitPlugin (normally after DefaultPlugins)"
    );
}

#[test]
fn defaults_draw_above_the_host() {
    let plugin = GpuiPlugin::default();
    assert_eq!(plugin.render_order, GpuiRenderOrder::default());
    assert_eq!(plugin.render_order, GpuiRenderOrder::AboveBevyUi);
    assert_eq!(plugin.accessibility, GpuiAccessibility::default());
    assert!(plugin.auto_attach_primary);
}

#[test]
fn passes_run_on_the_configured_side_of_the_host_ui() {
    let plugin = GpuiPlugin { render_order: GpuiRenderOrder::BelowBevyUi, ..GpuiPlugin::default() };
    let plan = plugin.build(EVERYTHING, DEFAULT_HOST).unwrap();
    let passes: Vec<_> =
        plan.systems.iter().filter(|placed| placed.system == GpuiSystem::Pass).collect();
    assert_eq!(passes.len(), 2);
    for pass in passes {
        assert_eq!(pass.ui, Some(GpuiRenderOrder::BelowBevyUi));
        assert_eq!(pass.before, Some(HostAnchor::Upscaling));
    }
    assert_eq!(plan.systems.len(), 14);
    assert_eq!(plan.systems[2].follows, Some(GpuiSystem::InitializeRuntime));
    assert_eq!(plan.systems[6].schedule, HostSchedule::PostUpdate);
    assert_eq!(plan.systems[6].before, Some(HostAnchor::CameraUpdate));
}

#[test]
fn the_picking_blocker_hides_what_lies_behind_and_is_not_hovered() {
    let blocker = picking_blocker();
    assert!(blocker.should_block_lower);
    assert!(!blocker.is_hoverable);
}

#[test]
fn picking_is_blocked_only_where_the_host_picks() {
    let plugin = GpuiPlugin::default();
    let host = HostPlugins { picking: false, ..DEFAULT_HOST };
    let plan = plugin.build(EVERYTHING, host).unwrap();
    assert!(plan.systems.iter().all(|placed| placed.system != GpuiSystem::PickingBackend));
    assert!(!plan.resources.contains(&GpuiResource::PickingBlocker));
    let plan = plugin.build(EVERYTHING, DEFAULT_HOST).unwrap();
    let backend =
        plan.systems.iter().find(|placed| placed.system == GpuiSystem::PickingBackend).unwrap();
    assert_eq!(backend.after_set, Some(GpuiSystems::Input));
    let without_render = GpuiFeatures { render: false, picking: false };
    let plan = plugin.build(without_render, DEFAULT_HOST).unwrap();
    assert_eq!(plan.systems.len(), 7);
    assert_eq!(
        plan.resources,
        vec![GpuiResource::InputState, GpuiResource::RuntimeStatus, GpuiResource::RuntimeState]
    );
}

#[test]
fn mutations_queued_during_a_drain_come_last() {
    let mut queue = BevyMutationQueue::default();
    for mutation in [1, 2, 3] {
        queue.push(mutation);
    }
    let mut applied = vec![];
    while let Some(mutation) = queue.next_mutation() {
        applied.push(mutation);
        if mutation < 10 {
            queue.push(mutation * 10);
        }
    }
    assert_eq!(applied, vec![1, 2, 3, 10, 20, 30]);
    assert_eq!(queue.next_mutation(), None);
}

#[test]
fn a_renderer_is_made_once_and_reused() {
    let mut state: GpuiRenderState<(), String> = GpuiRenderState::default();
    let size = Some(PhysicalPoint { x: 4, y: 4 });
    assert!(matches!(state.start_pass(&view(None), 0, 0), PassStart::Skip));
    let plan = match state.start_pass(&view(size), 0, 0) {
        PassStart::Make { plan } => plan,
        _ => panic!("the first pass has a renderer made"),
    };
    assert!(matches!(state.start_pass(&view(size), 0, 0), PassStart::Make { .. }));
    state.insert_renderer(plan.key, "one".into());
    let mut other = view(size);
    other.view = 9;
    let made = match state.start_pass(&other, 0, 0) {
        PassStart::Make { plan } => plan,
        _ => panic!("views share no renderer"),
    };
    state.insert_renderer(made.key, "two".into());
    for drawn in ["one", "one again", "one again again"] {
        match state.start_pass(&view(size), 1, 0) {
            PassStart::Draw { plan, renderer } => {
                assert_eq!(renderer, drawn);
                assert!(plan.uses_filters);
                assert!(!state.has_renderer(&plan.key));
                state.insert_renderer(plan.key, renderer + " again");
            }
            _ => panic!("later passes draw with the same renderer"),
        }
    }
    assert_eq!(state.take_renderer(&made.key).as_deref(), Some("two"));
}
