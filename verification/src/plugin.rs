//! How the integration installs itself into a host application.
use crate::contexts::GpuiFeatures;
use vstd::prelude::*;

verus! {

/// Ordering of the overlay relative to the host's built-in UI render pass.
#[derive(Clone, Copy, Debug, PartialEq, Eq, Structural)]
pub enum GpuiRenderOrder {
    /// Render before the host's UI.
    BelowBevyUi,
    /// Render after the host's UI.
    AboveBevyUi,
}

impl Default for GpuiRenderOrder {
    /// Above the host's UI.
    fn default() -> (r: Self)
        ensures
            r == GpuiRenderOrder::AboveBevyUi,
    {
        GpuiRenderOrder::AboveBevyUi
    }
}

/// Accessibility behavior for the embedded tree.
///
/// The host owns the native accessibility adapter, and neither side can merge a
/// foreign subtree yet, so the only truthful mode is disabled.
#[derive(Clone, Copy, Debug, PartialEq, Eq, Structural)]
pub enum GpuiAccessibility {
    /// Do not install a second native accessibility adapter.
    Disabled,
}

impl Default for GpuiAccessibility {
    /// Disabled.
    fn default() -> (r: Self)
        ensures
            r == GpuiAccessibility::Disabled,
    {
        GpuiAccessibility::Disabled
    }
}

/// Configuration of the integration.
#[derive(Clone, Copy, Debug, PartialEq, Eq, Structural)]
pub struct GpuiPlugin {
    /// Ordering of the overlay relative to the host's UI.
    pub render_order: GpuiRenderOrder,
    /// Whether to attach a root to the primary camera when none is present.
    pub auto_attach_primary: bool,
    /// Accessibility integration mode.
    pub accessibility: GpuiAccessibility,
}

impl Default for GpuiPlugin {
    /// Above the host's UI, attached to the primary camera.
    fn default() -> (r: Self)
        ensures
            r == (GpuiPlugin {
                render_order: GpuiRenderOrder::AboveBevyUi,
                auto_attach_primary: true,
                accessibility: GpuiAccessibility::Disabled,
            }),
    {
        GpuiPlugin {
            render_order: GpuiRenderOrder::AboveBevyUi,
            auto_attach_primary: true,
            accessibility: GpuiAccessibility::Disabled,
        }
    }
}

/// Public schedule boundaries of the integration.
///
/// Applications can order their systems relative to these sets.
#[derive(Clone, Copy, Debug, PartialEq, Eq, Hash, Structural)]
pub enum GpuiSystems {
    /// Poll foreground tasks and expired timers.
    DriveExecutor,
    /// Translate host input and dispatch it.
    Input,
    /// Apply changes queued by retained callbacks.
    ApplyDeferredBridge,
    /// Synchronize host windows and cameras into embedded windows.
    WindowSync,
    /// Lay out and paint dirty views into scene snapshots.
    BuildScene,
}

/// Which of the plugins that matter the host has installed.
#[derive(Clone, Copy, Debug, PartialEq, Eq, Structural)]
pub struct HostPlugins {
    /// The renderer.
    pub render: bool,
    /// Windows.
    pub window: bool,
    /// The native event loop.
    pub winit: bool,
    /// Picking.
    pub picking: bool,
}

/// A plugin of the host that has to be installed first.
#[derive(Clone, Copy, Debug, PartialEq, Eq, Structural)]
pub enum BuildError {
    MissingRenderer,
    MissingWindow,
    MissingWinit,
}

impl BuildError {
    /// The message of an error.
    pub open spec fn message_spec(self) -> Seq<char> {
        match self {
            BuildError::MissingRenderer =>
                "GpuiPlugin must be added after Bevy's RenderPlugin (normally after DefaultPlugins)"@,
            BuildError::MissingWindow =>
                "GpuiPlugin must be added after Bevy's WindowPlugin (normally after DefaultPlugins)"@,
            BuildError::MissingWinit =>
                "GpuiPlugin must be added after Bevy's WinitPlugin (normally after DefaultPlugins)"@,
        }
    }

    /// The message of an error.
    pub fn message(self) -> (r: String)
        ensures
            r@ == self.message_spec(),
    {
        match self {
            BuildError::MissingRenderer =>
                "GpuiPlugin must be added after Bevy's RenderPlugin (normally after DefaultPlugins)",
            BuildError::MissingWindow =>
                "GpuiPlugin must be added after Bevy's WindowPlugin (normally after DefaultPlugins)",
            BuildError::MissingWinit =>
                "GpuiPlugin must be added after Bevy's WinitPlugin (normally after DefaultPlugins)",
        }.to_owned()
    }
}

/// A schedule of the host.
#[derive(Clone, Copy, Debug, PartialEq, Eq, Structural)]
pub enum HostSchedule {
    PreUpdate,
    PostUpdate,
    RenderStartup,
    Render,
    Core2d,
    Core3d,
}

/// A point of the host's schedules that systems are ordered by.
#[derive(Clone, Copy, Debug, PartialEq, Eq, Structural)]
pub enum HostAnchor {
    /// The host has read its input.
    Input,
    /// The host has updated its cameras.
    CameraUpdate,
    /// Picking collects hits.
    PickingBackend,
    /// The renderer cleans up after a frame.
    RenderCleanup,
    /// The main pass of a flat scene.
    MainPass2d,
    /// The early post-processing of a spatial scene.
    EarlyPostProcess3d,
    /// The picture is scaled up to its target.
    Upscaling,
    /// The host's UI is drawn.
    UiPass,
}

/// A system of the integration.
#[derive(Clone, Copy, Debug, PartialEq, Eq, Structural)]
pub enum GpuiSystem {
    AutoAttachPrimary,
    InitializeRuntime,
    DriveExecutor,
    DispatchInput,
    PrepareWindowClose,
    ApplyDeferredBridge,
    CleanupOrphanedWindowContexts,
    SyncWindows,
    BuildScenes,
    PickingBackend,
    InitializeGpu,
    CleanupRenderers,
    Pass,
}

/// Where a system runs.
#[derive(Clone, Copy, Debug, PartialEq, Eq, Structural)]
pub struct Placement {
    pub system: GpuiSystem,
    pub schedule: HostSchedule,
    /// The set of the integration it belongs to.
    pub in_set: Option<GpuiSystems>,
    /// The set of the host it belongs to.
    pub in_host_set: Option<HostAnchor>,
    /// The system of the integration it directly follows.
    pub follows: Option<GpuiSystem>,
    /// The set of the integration it runs after.
    pub after_set: Option<GpuiSystems>,
    /// What it runs after.
    pub after: Option<HostAnchor>,
    /// What it runs before.
    pub before: Option<HostAnchor>,
    /// Whether it runs before the host's UI, after it, or regardless of it.
    pub ui: Option<GpuiRenderOrder>,
}

/// Sets of the integration that run one after the other.
#[derive(Clone, Copy, Debug, PartialEq, Eq, Structural)]
pub struct SetOrder {
    pub schedule: HostSchedule,
    pub set: GpuiSystems,
    /// The set of the integration it directly follows.
    pub follows: Option<GpuiSystems>,
    /// What of the host it runs after.
    pub after: Option<HostAnchor>,
}

/// A resource the integration installs.
#[derive(Clone, Copy, Debug, PartialEq, Eq, Structural)]
pub enum GpuiResource {
    GpuBridge,
    ImageRegistry,
    InputState,
    RuntimeStatus,
    RuntimeState,
    PluginSettings,
    PickingBlocker,
    RenderGpuBridge,
    RenderImageRegistry,
    RenderState,
}

/// Everything the integration installs.
pub struct BuildPlan {
    /// Resources, in order.
    pub resources: Vec<GpuiResource>,
    /// The order of the public sets.
    pub sets: Vec<SetOrder>,
    /// Systems, in order.
    pub systems: Vec<Placement>,
    /// Whether the primary camera gets a root of its own accord.
    pub auto_attach_primary: bool,
}

/// A system without any ordering.
pub open spec fn placed(system: GpuiSystem, schedule: HostSchedule) -> Placement {
    Placement {
        system,
        schedule,
        in_set: None,
        in_host_set: None,
        follows: None,
        after_set: None,
        after: None,
        before: None,
        ui: None,
    }
}

fn place(system: GpuiSystem, schedule: HostSchedule) -> (r: Placement)
    ensures
        r == placed(system, schedule),
{
    Placement {
        system,
        schedule,
        in_set: None,
        in_host_set: None,
        follows: None,
        after_set: None,
        after: None,
        before: None,
        ui: None,
    }
}

/// The order of the public sets: before the update the executor runs, then the
/// input that the host has read, then queued changes; after it windows follow the
/// host's cameras and then scenes are built.
pub open spec fn set_orders() -> Seq<SetOrder> {
    seq![
        SetOrder {
            schedule: HostSchedule::PreUpdate,
            set: GpuiSystems::DriveExecutor,
            follows: None,
            after: None,
        },
        SetOrder {
            schedule: HostSchedule::PreUpdate,
            set: GpuiSystems::Input,
            follows: Some(GpuiSystems::DriveExecutor),
            after: Some(HostAnchor::Input),
        },
        SetOrder {
            schedule: HostSchedule::PreUpdate,
            set: GpuiSystems::ApplyDeferredBridge,
            follows: Some(GpuiSystems::Input),
            after: None,
        },
        SetOrder {
            schedule: HostSchedule::PostUpdate,
            set: GpuiSystems::WindowSync,
            follows: None,
            after: Some(HostAnchor::CameraUpdate),
        },
        SetOrder {
            schedule: HostSchedule::PostUpdate,
            set: GpuiSystems::BuildScene,
            follows: Some(GpuiSystems::WindowSync),
            after: None,
        },
    ]
}

/// The systems that start the application and run its tasks.
pub open spec fn executor_systems(render: bool) -> Seq<Placement> {
    if render {
        seq![
            Placement {
                in_set: Some(GpuiSystems::DriveExecutor),
                ..placed(GpuiSystem::AutoAttachPrimary, HostSchedule::PreUpdate)
            },
            Placement {
                in_set: Some(GpuiSystems::DriveExecutor),
                follows: Some(GpuiSystem::AutoAttachPrimary),
                ..placed(GpuiSystem::InitializeRuntime, HostSchedule::PreUpdate)
            },
            Placement {
                in_set: Some(GpuiSystems::DriveExecutor),
                follows: Some(GpuiSystem::InitializeRuntime),
                ..placed(GpuiSystem::DriveExecutor, HostSchedule::PreUpdate)
            },
        ]
    } else {
        seq![
            Placement {
                in_set: Some(GpuiSystems::DriveExecutor),
                ..placed(GpuiSystem::DriveExecutor, HostSchedule::PreUpdate)
            },
        ]
    }
}

/// The systems of the main world that run in every build.
pub open spec fn main_systems() -> Seq<Placement> {
    seq![
        Placement {
            in_set: Some(GpuiSystems::Input),
            ..placed(GpuiSystem::DispatchInput, HostSchedule::PreUpdate)
        },
        placed(GpuiSystem::PrepareWindowClose, HostSchedule::PreUpdate),
        Placement {
            in_set: Some(GpuiSystems::ApplyDeferredBridge),
            ..placed(GpuiSystem::ApplyDeferredBridge, HostSchedule::PreUpdate)
        },
        Placement {
            before: Some(HostAnchor::CameraUpdate),
            ..placed(GpuiSystem::CleanupOrphanedWindowContexts, HostSchedule::PostUpdate)
        },
        Placement {
            in_set: Some(GpuiSystems::WindowSync),
            ..placed(GpuiSystem::SyncWindows, HostSchedule::PostUpdate)
        },
        Placement {
            in_set: Some(GpuiSystems::BuildScene),
            ..placed(GpuiSystem::BuildScenes, HostSchedule::PostUpdate)
        },
    ]
}

/// The system that blocks picking below claimed windows.
pub open spec fn picking_systems(picking: bool) -> Seq<Placement> {
    if picking {
        seq![
            Placement {
                in_host_set: Some(HostAnchor::PickingBackend),
                after_set: Some(GpuiSystems::Input),
                ..placed(GpuiSystem::PickingBackend, HostSchedule::PreUpdate)
            },
        ]
    } else {
        Seq::empty()
    }
}

/// The systems of the render world.
pub open spec fn render_systems(render: bool, order: GpuiRenderOrder) -> Seq<Placement> {
    if render {
        seq![
            placed(GpuiSystem::InitializeGpu, HostSchedule::RenderStartup),
            Placement {
                in_host_set: Some(HostAnchor::RenderCleanup),
                ..placed(GpuiSystem::CleanupRenderers, HostSchedule::Render)
            },
            Placement {
                after: Some(HostAnchor::MainPass2d),
                before: Some(HostAnchor::Upscaling),
                ui: Some(order),
                ..placed(GpuiSystem::Pass, HostSchedule::Core2d)
            },
            Placement {
                after: Some(HostAnchor::EarlyPostProcess3d),
                before: Some(HostAnchor::Upscaling),
                ui: Some(order),
                ..placed(GpuiSystem::Pass, HostSchedule::Core3d)
            },
        ]
    } else {
        Seq::empty()
    }
}

/// How the entity that stands for claimed windows takes part in picking.
#[derive(Clone, Copy, Debug, PartialEq, Eq, Structural)]
pub struct PickingBlocker {
    /// Whatever lies behind it is not picked.
    pub should_block_lower: bool,
    /// It is hovered itself.
    pub is_hoverable: bool,
}

/// The entity that stands for claimed windows hides what lies behind it and is
/// never hovered itself.
pub fn picking_blocker() -> (r: PickingBlocker)
    ensures
        r == (PickingBlocker { should_block_lower: true, is_hoverable: false }),
{
    PickingBlocker { should_block_lower: true, is_hoverable: false }
}

/// The resources, in the order they are installed.
pub open spec fn resources_spec(render: bool, picking: bool) -> Seq<GpuiResource> {
    (if render {
        seq![GpuiResource::GpuBridge, GpuiResource::ImageRegistry]
    } else {
        Seq::empty()
    }) + seq![
        GpuiResource::InputState,
        GpuiResource::RuntimeStatus,
        GpuiResource::RuntimeState,
    ] + (if render {
        seq![GpuiResource::PluginSettings]
    } else {
        Seq::empty()
    }) + (if picking {
        seq![GpuiResource::PickingBlocker]
    } else {
        Seq::empty()
    }) + (if render {
        seq![
            GpuiResource::RenderGpuBridge,
            GpuiResource::RenderImageRegistry,
            GpuiResource::RenderState,
        ]
    } else {
        Seq::empty()
    })
}

/// The first plugin of the host that is missing.
pub open spec fn missing_plugin(features: GpuiFeatures, host: HostPlugins) -> Option<BuildError> {
    if !features.render {
        None
    } else if !host.render {
        Some(BuildError::MissingRenderer)
    } else if !host.window {
        Some(BuildError::MissingWindow)
    } else if !host.winit {
        Some(BuildError::MissingWinit)
    } else {
        None
    }
}

fn build_sets() -> (r: Vec<SetOrder>)
    ensures
        r@ == set_orders(),
{
    let mut sets: Vec<SetOrder> = Vec::new();
    sets.push(
        SetOrder {
            schedule: HostSchedule::PreUpdate,
            set: GpuiSystems::DriveExecutor,
            follows: None,
            after: None,
        },
    );
    sets.push(
        SetOrder {
            schedule: HostSchedule::PreUpdate,
            set: GpuiSystems::Input,
            follows: Some(GpuiSystems::DriveExecutor),
            after: Some(HostAnchor::Input),
        },
    );
    sets.push(
        SetOrder {
            schedule: HostSchedule::PreUpdate,
            set: GpuiSystems::ApplyDeferredBridge,
            follows: Some(GpuiSystems::Input),
            after: None,
        },
    );
    sets.push(
        SetOrder {
            schedule: HostSchedule::PostUpdate,
            set: GpuiSystems::WindowSync,
            follows: None,
            after: Some(HostAnchor::CameraUpdate),
        },
    );
    sets.push(
        SetOrder {
            schedule: HostSchedule::PostUpdate,
            set: GpuiSystems::BuildScene,
            follows: Some(GpuiSystems::WindowSync),
            after: None,
        },
    );
    sets
}

fn build_executor_systems(render: bool) -> (r: Vec<Placement>)
    ensures
        r@ == executor_systems(render),
{
    let mut systems: Vec<Placement> = Vec::new();
    if render {
        let mut attach = place(GpuiSystem::AutoAttachPrimary, HostSchedule::PreUpdate);
        attach.in_set = Some(GpuiSystems::DriveExecutor);
        systems.push(attach);
        let mut initialize = place(GpuiSystem::InitializeRuntime, HostSchedule::PreUpdate);
        initialize.in_set = Some(GpuiSystems::DriveExecutor);
        initialize.follows = Some(GpuiSystem::AutoAttachPrimary);
        systems.push(initialize);
        let mut drive = place(GpuiSystem::DriveExecutor, HostSchedule::PreUpdate);
        drive.in_set = Some(GpuiSystems::DriveExecutor);
        drive.follows = Some(GpuiSystem::InitializeRuntime);
        systems.push(drive);
    } else {
        let mut drive = place(GpuiSystem::DriveExecutor, HostSchedule::PreUpdate);
        drive.in_set = Some(GpuiSystems::DriveExecutor);
        systems.push(drive);
    }
    systems
}

fn build_main_systems() -> (r: Vec<Placement>)
    ensures
        r@ == main_systems(),
{
    let mut systems: Vec<Placement> = Vec::new();
    let mut input = place(GpuiSystem::DispatchInput, HostSchedule::PreUpdate);
    input.in_set = Some(GpuiSystems::Input);
    systems.push(input);
    systems.push(place(GpuiSystem::PrepareWindowClose, HostSchedule::PreUpdate));
    let mut apply = place(GpuiSystem::ApplyDeferredBridge, HostSchedule::PreUpdate);
    apply.in_set = Some(GpuiSystems::ApplyDeferredBridge);
    systems.push(apply);
    let mut cleanup = place(
        GpuiSystem::CleanupOrphanedWindowContexts,
        HostSchedule::PostUpdate,
    );
    cleanup.before = Some(HostAnchor::CameraUpdate);
    systems.push(cleanup);
    let mut sync = place(GpuiSystem::SyncWindows, HostSchedule::PostUpdate);
    sync.in_set = Some(GpuiSystems::WindowSync);
    systems.push(sync);
    let mut scenes = place(GpuiSystem::BuildScenes, HostSchedule::PostUpdate);
    scenes.in_set = Some(GpuiSystems::BuildScene);
    systems.push(scenes);
    systems
}

fn build_picking_systems(picking: bool) -> (r: Vec<Placement>)
    ensures
        r@ == picking_systems(picking),
{
    let mut systems: Vec<Placement> = Vec::new();
    if picking {
        let mut backend = place(GpuiSystem::PickingBackend, HostSchedule::PreUpdate);
        backend.in_host_set = Some(HostAnchor::PickingBackend);
        backend.after_set = Some(GpuiSystems::Input);
        systems.push(backend);
    }
    systems
}

fn build_render_systems(render: bool, order: GpuiRenderOrder) -> (r: Vec<Placement>)
    ensures
        r@ == render_systems(render, order),
{
    let mut systems: Vec<Placement> = Vec::new();
    if render {
        systems.push(place(GpuiSystem::InitializeGpu, HostSchedule::RenderStartup));
        let mut cleanup = place(GpuiSystem::CleanupRenderers, HostSchedule::Render);
        cleanup.in_host_set = Some(HostAnchor::RenderCleanup);
        systems.push(cleanup);
        let mut flat = place(GpuiSystem::Pass, HostSchedule::Core2d);
        flat.after = Some(HostAnchor::MainPass2d);
        flat.before = Some(HostAnchor::Upscaling);
        flat.ui = Some(order);
        systems.push(flat);
        let mut spatial = place(GpuiSystem::Pass, HostSchedule::Core3d);
        spatial.after = Some(HostAnchor::EarlyPostProcess3d);
        spatial.before = Some(HostAnchor::Upscaling);
        spatial.ui = Some(order);
        systems.push(spatial);
    }
    systems
}

fn build_resources(render: bool, picking: bool) -> (r: Vec<GpuiResource>)
    ensures
        r@ == resources_spec(render, picking),
{
    let mut resources: Vec<GpuiResource> = Vec::new();
    if render {
        resources.push(GpuiResource::GpuBridge);
        resources.push(GpuiResource::ImageRegistry);
    }
    resources.push(GpuiResource::InputState);
    resources.push(GpuiResource::RuntimeStatus);
    resources.push(GpuiResource::RuntimeState);
    if render {
        resources.push(GpuiResource::PluginSettings);
    }
    if picking {
        resources.push(GpuiResource::PickingBlocker);
    }
    if render {
        resources.push(GpuiResource::RenderGpuBridge);
        resources.push(GpuiResource::RenderImageRegistry);
        resources.push(GpuiResource::RenderState);
    }
    resources
}

impl GpuiPlugin {
    /// Everything the integration installs into a host with some plugins.
    pub open spec fn plans(
        self,
        features: GpuiFeatures,
        host: HostPlugins,
        plan: BuildPlan,
    ) -> bool {
        let picking = features.picking && host.picking;
        &&& plan.resources@ == resources_spec(features.render, picking)
        &&& plan.sets@ == set_orders()
        &&& plan.systems@ == executor_systems(features.render) + main_systems() + picking_systems(
            picking,
        ) + render_systems(features.render, self.render_order)
        &&& plan.auto_attach_primary == self.auto_attach_primary
    }

    /// Plans the installation into a host with some plugins. A build that draws
    /// needs the host's renderer, windows and event loop, and the first that is
    /// missing is reported.
    pub fn build(&self, features: GpuiFeatures, host: HostPlugins) -> (r: Result<
        BuildPlan,
        BuildError,
    >)
        ensures
            missing_plugin(features, host) matches Some(error) ==> r == Err::<
                BuildPlan,
                BuildError,
            >(error),
            missing_plugin(features, host) is None ==> (r matches Ok(plan) && self.plans(
                features,
                host,
                plan,
            )),
    {
        if features.render {
            if !host.render {
                return Err(BuildError::MissingRenderer);
            }
            if !host.window {
                return Err(BuildError::MissingWindow);
            }
            if !host.winit {
                return Err(BuildError::MissingWinit);
            }
        }
        let picking: bool = features.picking && host.picking;
        let mut systems = build_executor_systems(features.render);
        let mut main = build_main_systems();
        let mut blocker = build_picking_systems(picking);
        let mut drawing = build_render_systems(features.render, self.render_order);
        systems.append(&mut main);
        systems.append(&mut blocker);
        systems.append(&mut drawing);
        Ok(
            BuildPlan {
                resources: build_resources(features.render, picking),
                sets: build_sets(),
                systems,
                auto_attach_primary: self.auto_attach_primary,
            },
        )
    }
}

/// Every pass that draws scenes runs before the picture is scaled up and on the
/// configured side of the host's UI, and everything the integration runs in one of
/// its public sets runs in a schedule where that set is ordered.
pub proof fn law_passes_respect_render_order(
    plugin: GpuiPlugin,
    features: GpuiFeatures,
    host: HostPlugins,
    plan: BuildPlan,
    i: int,
)
    requires
        plugin.plans(features, host, plan),
        0 <= i < plan.systems@.len(),
    ensures
        plan.systems@[i].system == GpuiSystem::Pass ==> plan.systems@[i].ui == Some(
            plugin.render_order,
        ) && plan.systems@[i].before == Some(HostAnchor::Upscaling),
        plan.systems@[i].in_set matches Some(set) ==> exists|k: int|
            0 <= k < set_orders().len() && (#[trigger] set_orders()[k]).set == set
                && set_orders()[k].schedule == plan.systems@[i].schedule,
        plan.systems@[i].system == GpuiSystem::PickingBackend ==> features.picking && host.picking
            && plan.systems@[i].after_set == Some(GpuiSystems::Input),
{
    let sets = set_orders();
    assert(sets[0].set == GpuiSystems::DriveExecutor);
    assert(sets[1].set == GpuiSystems::Input);
    assert(sets[2].set == GpuiSystems::ApplyDeferredBridge);
    assert(sets[3].set == GpuiSystems::WindowSync);
    assert(sets[4].set == GpuiSystems::BuildScene);
}

/// Of every host the integration orders its public sets the same way, each once: before
/// the update tasks run first, then input once the host has read its own, then queued
/// changes; after the update windows follow once the host has moved its cameras, and
/// scenes are built from them.
pub proof fn law_public_sets_run_in_order(
    plugin: GpuiPlugin,
    features: GpuiFeatures,
    host: HostPlugins,
    plan: BuildPlan,
    k: int,
)
    requires
        plugin.plans(features, host, plan),
        0 <= k < plan.sets@.len(),
    ensures
        plan.sets@.len() == 5,
        plan.sets@[k].set is DriveExecutor ==> plan.sets@[k].schedule is PreUpdate
            && plan.sets@[k].follows is None && plan.sets@[k].after is None,
        plan.sets@[k].set is Input ==> plan.sets@[k].schedule is PreUpdate && plan.sets@[k].follows
            == Some(GpuiSystems::DriveExecutor) && plan.sets@[k].after == Some(HostAnchor::Input),
        plan.sets@[k].set is ApplyDeferredBridge ==> plan.sets@[k].schedule is PreUpdate
            && plan.sets@[k].follows == Some(GpuiSystems::Input) && plan.sets@[k].after is None,
        plan.sets@[k].set is WindowSync ==> plan.sets@[k].schedule is PostUpdate
            && plan.sets@[k].follows is None && plan.sets@[k].after == Some(
            HostAnchor::CameraUpdate,
        ),
        plan.sets@[k].set is BuildScene ==> plan.sets@[k].schedule is PostUpdate
            && plan.sets@[k].follows == Some(GpuiSystems::WindowSync) && plan.sets@[k].after is None,
        forall|other: int|
            0 <= other < plan.sets@.len() && other != k ==> (#[trigger] plan.sets@[other]).set
                != plan.sets@[k].set,
{
}

/// Where each system runs: what works for a public set runs in that set; the root of
/// the primary camera is attached before the application starts, and the application
/// starts before its tasks run; cameras of closed windows are cleaned up before the
/// host moves its cameras; and each scene is drawn after the main pass of its kind.
pub proof fn law_systems_run_where_they_belong(
    plugin: GpuiPlugin,
    features: GpuiFeatures,
    host: HostPlugins,
    plan: BuildPlan,
    i: int,
)
    requires
        plugin.plans(features, host, plan),
        0 <= i < plan.systems@.len(),
    ensures
        ({
            let run = plan.systems@[i];
            &&& run.system is AutoAttachPrimary ==> features.render && run.in_set == Some(
                GpuiSystems::DriveExecutor,
            ) && run.follows is None
            &&& run.system is InitializeRuntime ==> features.render && run.in_set == Some(
                GpuiSystems::DriveExecutor,
            ) && run.follows == Some(GpuiSystem::AutoAttachPrimary)
            &&& run.system is DriveExecutor ==> run.in_set == Some(GpuiSystems::DriveExecutor)
                && run.follows == if features.render {
                Some(GpuiSystem::InitializeRuntime)
            } else {
                None
            }
            &&& run.system is DispatchInput ==> run.in_set == Some(GpuiSystems::Input)
            &&& run.system is ApplyDeferredBridge ==> run.in_set == Some(
                GpuiSystems::ApplyDeferredBridge,
            )
            &&& run.system is PrepareWindowClose ==> run.schedule is PreUpdate
                && run.in_set is None
            &&& run.system is CleanupOrphanedWindowContexts ==> run.schedule is PostUpdate
                && run.before == Some(HostAnchor::CameraUpdate) && run.in_set is None
            &&& run.system is SyncWindows ==> run.in_set == Some(GpuiSystems::WindowSync)
            &&& run.system is BuildScenes ==> run.in_set == Some(GpuiSystems::BuildScene)
            &&& run.system is PickingBackend ==> run.schedule is PreUpdate && run.in_host_set
                == Some(HostAnchor::PickingBackend) && run.after_set == Some(GpuiSystems::Input)
            &&& run.system is InitializeGpu ==> features.render && run.schedule is RenderStartup
            &&& run.system is CleanupRenderers ==> features.render && run.schedule is Render
                && run.in_host_set == Some(HostAnchor::RenderCleanup)
            &&& run.system is Pass ==> features.render && (run.schedule is Core2d || run.schedule
                is Core3d) && run.after == Some(
                if run.schedule is Core2d {
                    HostAnchor::MainPass2d
                } else {
                    HostAnchor::EarlyPostProcess3d
                },
            )
            &&& run.in_set == Some(GpuiSystems::DriveExecutor) || run.in_set == Some(
                GpuiSystems::Input,
            ) || run.in_set == Some(GpuiSystems::ApplyDeferredBridge) ==> run.schedule is PreUpdate
            &&& run.in_set == Some(GpuiSystems::WindowSync) || run.in_set == Some(
                GpuiSystems::BuildScene,
            ) ==> run.schedule is PostUpdate
        }),
{
    let executor = executor_systems(features.render);
    let picking = picking_systems(features.picking && host.picking);
    let drawing = render_systems(features.render, plugin.render_order);
    let first = executor.len() as int;
    let second = first + main_systems().len();
    let third = second + picking.len();
    if i < first {
        assert(plan.systems@[i] == executor[i]);
    } else if i < second {
        assert(plan.systems@[i] == main_systems()[i - first]);
    } else if i < third {
        assert(plan.systems@[i] == picking[i - second]);
    } else {
        assert(plan.systems@[i] == drawing[i - third]);
    }
}

/// Every host gets the systems of the main world; one that draws gets those that start
/// the application and draw it too; and one that picks gets the blocker. A pass is
/// counted for each of the two kinds of camera.
pub proof fn law_hosts_get_all_systems(
    plugin: GpuiPlugin,
    features: GpuiFeatures,
    host: HostPlugins,
    plan: BuildPlan,
)
    requires
        plugin.plans(features, host, plan),
    ensures
        plan.systems@.len() == 7 + (if features.render {
            6int
        } else {
            0
        }) + (if features.picking && host.picking {
            1int
        } else {
            0
        }),
        runs(plan, GpuiSystem::DriveExecutor),
        runs(plan, GpuiSystem::DispatchInput),
        runs(plan, GpuiSystem::PrepareWindowClose),
        runs(plan, GpuiSystem::ApplyDeferredBridge),
        runs(plan, GpuiSystem::CleanupOrphanedWindowContexts),
        runs(plan, GpuiSystem::SyncWindows),
        runs(plan, GpuiSystem::BuildScenes),
        features.render ==> runs(plan, GpuiSystem::AutoAttachPrimary) && runs(
            plan,
            GpuiSystem::InitializeRuntime,
        ) && runs(plan, GpuiSystem::InitializeGpu) && runs(plan, GpuiSystem::CleanupRenderers)
            && runs(plan, GpuiSystem::Pass),
        features.picking && host.picking ==> runs(plan, GpuiSystem::PickingBackend),
{
    let executor = executor_systems(features.render);
    let picking = picking_systems(features.picking && host.picking);
    let first = executor.len() as int;
    let main = main_systems();
    let second = first + main.len();
    let third = second + picking.len();
    let drawing = render_systems(features.render, plugin.render_order);
    assert(forall|k: int| 0 <= k < first ==> plan.systems@[k] == #[trigger] executor[k]);
    assert(forall|k: int| 0 <= k < main.len() ==> plan.systems@[first + k] == #[trigger] main[k]);
    assert(forall|k: int|
        0 <= k < picking.len() ==> plan.systems@[second + k] == #[trigger] picking[k]);
    assert(forall|k: int|
        0 <= k < drawing.len() ==> plan.systems@[third + k] == #[trigger] drawing[k]);
    assert(plan.systems@[first + 0].system == main[0].system);
    assert(plan.systems@[first + 1].system == main[1].system);
    assert(plan.systems@[first + 2].system == main[2].system);
    assert(plan.systems@[first + 3].system == main[3].system);
    assert(plan.systems@[first + 4].system == main[4].system);
    assert(plan.systems@[first + 5].system == main[5].system);
    assert(plan.systems@[first - 1].system == executor[first - 1].system);
    if features.render {
        assert(plan.systems@[0].system == executor[0].system);
        assert(plan.systems@[1].system == executor[1].system);
        assert(plan.systems@[third + 0].system == drawing[0].system);
        assert(plan.systems@[third + 1].system == drawing[1].system);
        assert(plan.systems@[third + 2].system == drawing[2].system);
    }
    if features.picking && host.picking {
        assert(plan.systems@[second + 0].system == picking[0].system);
    }
}

/// Whether a plan runs a system.
pub open spec fn runs(plan: BuildPlan, system: GpuiSystem) -> bool {
    exists|i: int| 0 <= i < plan.systems@.len() && (#[trigger] plan.systems@[i]).system == system
}

/// Every host gets the input state and the state of the runtime; what drawing needs is
/// installed with it, in both worlds; and the blocker exactly where the host picks.
pub proof fn law_hosts_get_their_resources(
    plugin: GpuiPlugin,
    features: GpuiFeatures,
    host: HostPlugins,
    plan: BuildPlan,
)
    requires
        plugin.plans(features, host, plan),
    ensures
        plan.resources@.contains(GpuiResource::InputState),
        plan.resources@.contains(GpuiResource::RuntimeStatus),
        plan.resources@.contains(GpuiResource::RuntimeState),
        plan.resources@.contains(GpuiResource::GpuBridge) <==> features.render,
        plan.resources@.contains(GpuiResource::ImageRegistry) <==> features.render,
        plan.resources@.contains(GpuiResource::PluginSettings) <==> features.render,
        plan.resources@.contains(GpuiResource::RenderGpuBridge) <==> features.render,
        plan.resources@.contains(GpuiResource::RenderImageRegistry) <==> features.render,
        plan.resources@.contains(GpuiResource::RenderState) <==> features.render,
        plan.resources@.contains(GpuiResource::PickingBlocker) <==> features.picking
            && host.picking,
        plan.resources@.no_duplicates(),
        plan.auto_attach_primary == plugin.auto_attach_primary,
{
    let all = plan.resources@;
    if features.render {
        assert(all[0] is GpuBridge && all[1] is ImageRegistry && all[2] is InputState
            && all[3] is RuntimeStatus && all[4] is RuntimeState && all[5] is PluginSettings);
        if features.picking && host.picking {
            assert(all[6] is PickingBlocker && all[7] is RenderGpuBridge
                && all[8] is RenderImageRegistry && all[9] is RenderState);
        } else {
            assert(all[6] is RenderGpuBridge && all[7] is RenderImageRegistry
                && all[8] is RenderState);
        }
    } else {
        assert(all[0] is InputState && all[1] is RuntimeStatus && all[2] is RuntimeState);
        if features.picking && host.picking {
            assert(all[3] is PickingBlocker);
        }
    }
}

/// A host that draws needs the renderer, windows and the event loop, and misses the
/// first of them that it lacks, in that order; one that does not draw misses nothing.
pub proof fn law_drawing_needs_the_host(features: GpuiFeatures, host: HostPlugins)
    ensures
        missing_plugin(features, host) is None <==> !features.render || (host.render && host.window
            && host.winit),
        missing_plugin(features, host) == Some(BuildError::MissingRenderer) <==> features.render
            && !host.render,
        missing_plugin(features, host) == Some(BuildError::MissingWindow) <==> features.render
            && host.render && !host.window,
        missing_plugin(features, host) == Some(BuildError::MissingWinit) <==> features.render
            && host.render && host.window && !host.winit,
{
}

/// What stands for claimed windows hides what lies behind it without being hovered.
pub proof fn law_blocker_hides_and_is_not_hovered(blocker: PickingBlocker)
    requires
        call_ensures(picking_blocker, (), blocker),
    ensures
        blocker.should_block_lower,
        !blocker.is_hoverable,
{
}

/// Each error names the plugin of the host that is missing.
pub proof fn law_build_errors_name_the_plugin(error: BuildError)
    ensures
        error is MissingRenderer ==> error.message_spec()
            == "GpuiPlugin must be added after Bevy's RenderPlugin (normally after DefaultPlugins)"@,
        error is MissingWindow ==> error.message_spec()
            == "GpuiPlugin must be added after Bevy's WindowPlugin (normally after DefaultPlugins)"@,
        error is MissingWinit ==> error.message_spec()
            == "GpuiPlugin must be added after Bevy's WinitPlugin (normally after DefaultPlugins)"@,
{
}

} // verus!
