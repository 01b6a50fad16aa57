//! Roots, their handles, and the life of the embedded runtime.
use crate::host::HostTypes;
use crate::ids::{contains_id, lists, map_ids, retain_ids};
use crate::platform::{BevyPlatform, PlatformView};
use crate::runtime::{GpuiRuntime, RuntimeView};
use crate::scene::GpuiScene;
use std::collections::HashMap;
use std::marker::PhantomData;
use vstd::prelude::*;

verus! {

broadcast use vstd::std_specs::hash::group_hash_axioms;

/// Most foreground tasks run in one frame.
pub const DRAIN_LIMIT: usize = 1024;

/// Observable lifecycle state for the embedded runtime.
#[derive(Clone, Copy, Debug, PartialEq, Eq, Structural)]
pub struct GpuiRuntimeStatus {
    /// The shared atlas and the embedded application are initialized.
    pub ready: bool,
    /// Number of retained roots materialized after the latest window sync.
    pub roots: usize,
    /// Number of scene snapshots delivered to host cameras.
    pub scenes_built: u64,
    /// Generation of the render device currently used.
    pub gpu_generation: u64,
    /// Number of times the runtime recovered onto a replacement device.
    pub recoveries: u64,
}

impl GpuiRuntimeStatus {
    /// Nothing started yet.
    pub open spec fn initial() -> GpuiRuntimeStatus {
        GpuiRuntimeStatus {
            ready: false,
            roots: 0,
            scenes_built: 0,
            gpu_generation: 0,
            recoveries: 0,
        }
    }
}

impl Default for GpuiRuntimeStatus {
    /// Nothing started yet.
    fn default() -> (r: Self)
        ensures
            r == GpuiRuntimeStatus::initial(),
    {
        GpuiRuntimeStatus {
            ready: false,
            roots: 0,
            scenes_built: 0,
            gpu_generation: 0,
            recoveries: 0,
        }
    }
}

/// Associates a retained root with a host camera.
///
/// Keeping the association on the camera lets ordinary camera, window, viewport
/// and entity changes remain the source of truth.
#[derive(Clone, Copy, Debug, PartialEq, Eq, Structural)]
pub struct GpuiContext {
    id: u64,
}

impl GpuiContext {
    /// The context id of the root.
    pub closed spec fn id_spec(self) -> u64 {
        self.id
    }

    /// The context id of the root.
    pub fn id(&self) -> (r: u64)
        ensures
            r == self.id_spec(),
    {
        self.id
    }
}

/// Marks the camera whose root is the primary one.
#[derive(Clone, Copy, Debug, PartialEq, Eq, Structural)]
pub struct PrimaryGpuiContext;

impl Default for PrimaryGpuiContext {
    /// The marker.
    fn default() -> (r: Self)
        ensures
            r == PrimaryGpuiContext,
    {
        PrimaryGpuiContext
    }
}

/// Typed token for a retained root.
pub struct GpuiViewHandle<V> {
    id: u64,
    view_type: PhantomData<V>,
}

impl<V> GpuiViewHandle<V> {
    /// A token for the root of a context. The view type is validated when the
    /// token is used.
    pub fn from_context(context: &GpuiContext) -> (r: Self)
        ensures
            r.id_spec() == context.id_spec(),
    {
        GpuiViewHandle { id: context.id, view_type: PhantomData }
    }

    /// The context id of the root.
    pub closed spec fn id_spec(self) -> u64 {
        self.id
    }

    /// The context id of the root.
    pub fn id(&self) -> (r: u64)
        ensures
            r == self.id_spec(),
    {
        self.id
    }
}

impl<V> Copy for GpuiViewHandle<V> {

}

impl<V> Clone for GpuiViewHandle<V> {
    /// The same token.
    fn clone(&self) -> (r: Self)
        ensures
            r == *self,
    {
        *self
    }
}

/// What the build of the integration offers.
#[derive(Clone, Copy, Debug, PartialEq, Eq, Structural)]
pub struct GpuiFeatures {
    /// Drawing into the host's renderer.
    pub render: bool,
    /// Blocking the host's picking below claimed windows.
    pub picking: bool,
}

/// Why a root could not be reached or made.
#[derive(Clone, Copy, Debug, PartialEq, Eq, Structural)]
pub enum ContextError {
    /// The build cannot draw.
    RenderDisabled,
    /// The runtime has not started.
    NotReady,
    /// The root is gone, or not materialized yet.
    StaleOrPending,
    /// The root is of another type.
    WrongType,
}

impl ContextError {
    /// The message of an error.
    pub open spec fn message_spec(self) -> Seq<char> {
        match self {
            ContextError::RenderDisabled =>
                "GpuiContexts::set_root requires bevy_gpui's `render` feature"@,
            ContextError::NotReady => "the embedded GPUI runtime is not ready yet"@,
            ContextError::StaleOrPending => "GPUI view handle is stale or still pending"@,
            ContextError::WrongType => "GPUI view handle has the wrong view type"@,
        }
    }

    /// The message of an error.
    pub fn message(self) -> (r: String)
        ensures
            r@ == self.message_spec(),
    {
        match self {
            ContextError::RenderDisabled =>
                "GpuiContexts::set_root requires bevy_gpui's `render` feature",
            ContextError::NotReady => "the embedded GPUI runtime is not ready yet",
            ContextError::StaleOrPending => "GPUI view handle is stale or still pending",
            ContextError::WrongType => "GPUI view handle has the wrong view type",
        }.to_owned()
    }
}

/// There is not exactly one primary root.
#[derive(Clone, Copy, Debug, PartialEq, Eq, Structural)]
pub enum PrimaryError {
    /// There is none.
    Missing,
    /// There are several.
    Ambiguous,
}

/// The one context among those marked as primary.
pub fn primary_context(marked: &Vec<GpuiContext>) -> (r: Result<GpuiContext, PrimaryError>)
    ensures
        r == (if marked@.len() == 0 {
            Err::<GpuiContext, PrimaryError>(PrimaryError::Missing)
        } else if marked@.len() == 1 {
            Ok(marked@[0])
        } else {
            Err(PrimaryError::Ambiguous)
        }),
{
    if marked.len() == 0 {
        Err(PrimaryError::Missing)
    } else if marked.len() == 1 {
        Ok(marked[0])
    } else {
        Err(PrimaryError::Ambiguous)
    }
}

/// The integration's state on the main thread.
pub struct GpuiRuntimeState<K: HostTypes> {
    next_id: u64,
    root_factories: HashMap<u64, K::RootFactory>,
    gpu_generation: Option<u64>,
    scene_generations: HashMap<u64, u64>,
    runtime: Option<GpuiRuntime<K>>,
}

/// The integration's state as plain values.
#[verifier::ext_equal]
#[verifier::reject_recursive_types(K)]
pub struct StateView<K: HostTypes> {
    /// The id of the next root.
    pub next_id: u64,
    /// What builds each root, by context id.
    pub root_factories: Map<u64, K::RootFactory>,
    /// The device generation of the latest started application.
    pub gpu_generation: Option<u64>,
    /// The latest scene generation of each root before the device was replaced.
    pub scene_generations: Map<u64, u64>,
    /// The running application.
    pub runtime: Option<GpuiRuntime<K>>,
}

/// What a device calls for.
pub enum StartPlan<K: HostTypes> {
    /// There is no device yet.
    Wait,
    /// The application runs on the current device.
    Keep,
    /// Start the application, after shutting down one that ran on another device.
    Start { shutdown: Option<GpuiRuntime<K>> },
}

impl<K: HostTypes> View for GpuiRuntimeState<K> {
    type V = StateView<K>;

    closed spec fn view(&self) -> StateView<K> {
        StateView {
            next_id: self.next_id,
            root_factories: self.root_factories@,
            gpu_generation: self.gpu_generation,
            scene_generations: self.scene_generations@,
            runtime: self.runtime,
        }
    }
}

impl<K: HostTypes> StateView<K> {
    /// Nothing running and no root known.
    pub open spec fn initial() -> StateView<K> {
        StateView {
            next_id: 1,
            root_factories: Map::empty(),
            gpu_generation: None,
            scene_generations: Map::empty(),
            runtime: None,
        }
    }

    /// Every root that can be built has an id that was handed out.
    pub open spec fn ids_are_handed_out(self) -> bool {
        forall|id: u64| #[trigger]
            self.root_factories.dom().contains(id) ==> 1 <= id && id < self.next_id
    }

    /// Whether the application runs on another device than the current one.
    pub open spec fn device_replaced(self, generation: u64) -> bool {
        self.runtime is Some && self.gpu_generation is Some && self.gpu_generation != Some(
            generation,
        )
    }

    /// The state once an id was handed out.
    pub open spec fn reserved(self) -> StateView<K> {
        StateView { next_id: (self.next_id + 1) as u64, ..self }
    }

    /// The state once a root can be built.
    pub open spec fn with_factory(self, id: u64, factory: K::RootFactory) -> StateView<K> {
        StateView { root_factories: self.root_factories.insert(id, factory), ..self }
    }

    /// The state once a root is not built any more.
    pub open spec fn without_factory(self, id: u64) -> StateView<K> {
        StateView { root_factories: self.root_factories.remove(id), ..self }
    }

    /// The state once a device was looked at, where `platform` is the adapter of the
    /// application that runs: the generations of its scenes are kept.
    pub open spec fn planned(
        self,
        generation: Option<u64>,
        platform: Option<PlatformView<K>>,
    ) -> StateView<K> {
        match generation {
            Some(generation) => if self.device_replaced(generation) {
                StateView {
                    runtime: None,
                    scene_generations: match platform {
                        Some(platform) => platform.all_generations(),
                        None => self.scene_generations,
                    },
                    ..self
                }
            } else {
                self
            },
            None => self,
        }
    }

    /// The roots to materialize, where `active` are those on cameras.
    pub open spec fn unmaterialized(self, active: Set<u64>) -> Set<u64> {
        match self.runtime {
            Some(runtime) => self.root_factories.dom().intersect(active).difference(
                runtime@.contexts.dom(),
            ),
            None => Set::empty(),
        }
    }

    /// Where a handle leads.
    pub open spec fn lookup(self, id: u64) -> Result<K::Handle, ContextError> {
        match self.runtime {
            None => Err(ContextError::NotReady),
            Some(runtime) => if runtime@.windows.contains_key(id) {
                Ok(runtime@.windows[id])
            } else {
                Err(ContextError::StaleOrPending)
            },
        }
    }
}

/// The status once a device was looked at.
pub open spec fn status_planned<K: HostTypes>(
    status: GpuiRuntimeStatus,
    state: StateView<K>,
    generation: Option<u64>,
) -> GpuiRuntimeStatus {
    match generation {
        Some(generation) => if state.device_replaced(generation) {
            GpuiRuntimeStatus {
                ready: false,
                roots: 0,
                recoveries: if status.recoveries == u64::MAX {
                    u64::MAX
                } else {
                    (status.recoveries + 1) as u64
                },
                ..status
            }
        } else {
            status
        },
        None => status,
    }
}

/// The status once an application was started on a device.
pub open spec fn status_started(status: GpuiRuntimeStatus, generation: u64) -> GpuiRuntimeStatus {
    GpuiRuntimeStatus { ready: true, gpu_generation: generation, ..status }
}

impl<K: HostTypes> Default for GpuiRuntimeState<K> {
    /// Nothing running and no root known.
    fn default() -> (r: Self)
        ensures
            r@ == StateView::<K>::initial(),
    {
        GpuiRuntimeState {
            next_id: 1,
            root_factories: HashMap::new(),
            gpu_generation: None,
            scene_generations: HashMap::new(),
            runtime: None,
        }
    }
}

impl<K: HostTypes> GpuiRuntimeState<K> {
    /// Looks at the current device: an application that runs on another one is
    /// taken out for shutdown, and one is to be started where none runs. The
    /// generations of the scenes in the adapter of the running application are kept.
    pub fn plan_start(
        &mut self,
        status: &mut GpuiRuntimeStatus,
        platform: Option<&BevyPlatform<K>>,
        generation: Option<u64>,
    ) -> (r: StartPlan<K>)
        ensures
            final(self)@ == old(self)@.planned(
                generation,
                match platform {
                    Some(platform) => Some(platform@),
                    None => None,
                },
            ),
            *final(status) == status_planned(*old(status), old(self)@, generation),
            match generation {
                None => r is Wait,
                Some(generation) => if old(self)@.device_replaced(generation) {
                    r == (StartPlan::<K>::Start { shutdown: old(self)@.runtime })
                } else if old(self)@.runtime is Some {
                    r is Keep
                } else {
                    r == (StartPlan::<K>::Start { shutdown: None })
                },
            },
    {
        let generation: u64 = match generation {
            Some(generation) => generation,
            None => {
                return StartPlan::Wait;
            },
        };
        let replaced: bool = match (&self.runtime, self.gpu_generation) {
            (Some(_), Some(current)) => current != generation,
            _ => false,
        };
        if replaced {
            let shutdown = self.runtime.take();
            if let Some(platform) = platform {
                self.scene_generations = platform.scene_generations();
            }
            status.ready = false;
            status.roots = 0;
            status.recoveries = status.recoveries.saturating_add(1);
            return StartPlan::Start { shutdown };
        }
        if self.runtime.is_some() {
            StartPlan::Keep
        } else {
            StartPlan::Start { shutdown: None }
        }
    }

    /// Takes over an application that was started on a device. In its adapter the
    /// scenes go on from the generations that were kept.
    pub fn install_runtime(
        &mut self,
        status: &mut GpuiRuntimeStatus,
        platform: &mut BevyPlatform<K>,
        generation: u64,
    )
        ensures
            final(platform)@ == old(platform)@.carrying(old(self)@.scene_generations),
            final(self)@.runtime matches Some(runtime) && runtime@ == RuntimeView::<K>::started(),
            final(self)@ == (StateView::<K> {
                runtime: final(self)@.runtime,
                gpu_generation: Some(generation),
                ..old(self)@
            }),
            *final(status) == status_started(*old(status), generation),
    {
        platform.carry_scene_generations(&self.scene_generations);
        self.runtime = Some(GpuiRuntime::new());
        self.gpu_generation = Some(generation);
        status.ready = true;
        status.gpu_generation = generation;
    }

    /// Whether there is an id left to hand out.
    pub fn has_free_id(&self) -> (r: bool)
        ensures
            r == (self@.next_id < u64::MAX),
    {
        self.next_id < u64::MAX
    }

    /// The running application.
    pub fn runtime(&self) -> (r: Option<&GpuiRuntime<K>>)
        ensures
            r == (match self@.runtime {
                Some(runtime) => Some(&runtime),
                None => None,
            }),
    {
        match &self.runtime {
            Some(runtime) => Some(runtime),
            None => None,
        }
    }

    /// Puts an application back that was taken out with
    /// [`GpuiRuntimeState::take_runtime`].
    pub fn put_runtime(&mut self, runtime: GpuiRuntime<K>)
        ensures
            final(self)@ == (StateView::<K> { runtime: Some(runtime), ..old(self)@ }),
    {
        self.runtime = Some(runtime);
    }

    /// Takes the application out, to work with it or to shut it down.
    pub fn take_runtime(&mut self) -> (r: Option<GpuiRuntime<K>>)
        ensures
            r == old(self)@.runtime,
            final(self)@ == (StateView::<K> { runtime: None, ..old(self)@ }),
    {
        self.runtime.take()
    }

    /// The roots to materialize: those that can be built, are on a camera and do
    /// not exist in the running application. They come in no particular order.
    pub fn roots_to_materialize(&self, active: &Vec<u64>) -> (r: Vec<u64>)
        ensures
            lists(r@, self@.unmaterialized(active@.to_set())),
    {
        let mut out: Vec<u64> = Vec::new();
        let runtime = match &self.runtime {
            Some(runtime) => runtime,
            None => {
                proof {
                    assert(out@.to_set() =~= Set::<u64>::empty());
                }
                return out;
            },
        };
        let ids = map_ids(&self.root_factories);
        let ghost wanted = self@.unmaterialized(active@.to_set());
        let mut index: usize = 0;
        while index < ids.len()
            invariant
                index <= ids@.len(),
                lists(ids@, self.root_factories@.dom()),
                self@.runtime == Some(*runtime),
                self.root_factories@ == self@.root_factories,
                wanted == self@.unmaterialized(active@.to_set()),
                out@.no_duplicates(),
                forall|i: int|
                    0 <= i < out@.len() ==> wanted.contains(#[trigger] out@[i])
                        && ids@.take(index as int).contains(out@[i]),
                forall|i: int|
                    0 <= i < index && wanted.contains(#[trigger] ids@[i]) ==> out@.contains(
                        ids@[i],
                    ),
            decreases ids@.len() - index,
        {
            let id: u64 = ids[index];
            let ghost before = out@;
            proof {
                assert(ids@.to_set().contains(id));
                assert(active@.to_set().contains(id) <==> active@.contains(id));
                let done = ids@.take(index as int);
                let next = ids@.take(index + 1);
                assert(next =~= done.push(id));
                assert(next[index as int] == id);
                assert forall|k: u64| done.contains(k) implies next.contains(k) by {
                    let i = choose|i: int| 0 <= i < done.len() && done[i] == k;
                    assert(next[i] == k);
                }
                if done.contains(id) {
                    let i = choose|i: int| 0 <= i < done.len() && done[i] == id;
                    assert(ids@[i] == ids@[index as int]);
                }
            }
            if contains_id(active, id) && !runtime.contexts.contains_key(&id) {
                out.push(id);
                proof {
                    assert(out@[before.len() as int] == id);
                }
            }
            proof {
                assert forall|i: int|
                    0 <= i < index + 1 && wanted.contains(#[trigger] ids@[i]) implies out@.contains(
                    ids@[i],
                ) by {
                    if i < index {
                        let j = choose|j: int| 0 <= j < before.len() && before[j] == ids@[i];
                        assert(out@[j] == ids@[i]);
                    }
                }
            }
            index = index + 1;
        }
        proof {
            assert forall|k: u64| out@.to_set().contains(k) <==> wanted.contains(k) by {
                if wanted.contains(k) {
                    assert(ids@.to_set().contains(k));
                    let i = choose|i: int| 0 <= i < ids@.len() && ids@[i] == k;
                    assert(out@.contains(ids@[i]));
                }
                if out@.contains(k) {
                    let i = choose|i: int| 0 <= i < out@.len() && out@[i] == k;
                    assert(wanted.contains(out@[i]));
                }
            }
            assert(out@.to_set() =~= wanted);
        }
        out
    }

    /// What builds a root.
    pub fn root_factory(&self, id: u64) -> (r: Option<&K::RootFactory>)
        ensures
            r == (if self@.root_factories.contains_key(id) {
                Some(&self@.root_factories[id])
            } else {
                None
            }),
    {
        self.root_factories.get(&id)
    }

    /// Stops building every root that is not in a list.
    pub fn retain_factories(&mut self, live: &Vec<u64>)
        ensures
            final(self)@ == (StateView::<K> {
                root_factories: old(self)@.root_factories.restrict(live@.to_set()),
                ..old(self)@
            }),
    {
        retain_ids(&mut self.root_factories, live);
    }

    /// Stops building a root.
    pub fn remove_factory(&mut self, id: u64)
        ensures
            final(self)@ == old(self)@.without_factory(id),
    {
        let removed = self.root_factories.remove(&id);
        proof {
            if removed is None {
                assert(old(self)@.root_factories.remove(id) =~= old(self)@.root_factories);
            }
        }
    }
}

/// Counts a root that was materialized.
pub fn note_materialized(status: &mut GpuiRuntimeStatus)
    requires
        old(status).roots < usize::MAX,
    ensures
        *final(status) == (GpuiRuntimeStatus {
            roots: (old(status).roots + 1) as usize,
            ..*old(status)
        }),
{
    status.roots = status.roots + 1;
}

/// Discounts a root that went away.
pub fn note_removed(status: &mut GpuiRuntimeStatus)
    ensures
        *final(status) == (GpuiRuntimeStatus {
            roots: if old(status).roots == 0 {
                0
            } else {
                (old(status).roots - 1) as usize
            },
            ..*old(status)
        }),
{
    status.roots = status.roots.saturating_sub(1);
}

/// Main-thread access to the embedded application.
pub struct GpuiContexts<K: HostTypes> {
    /// The integration's state.
    pub state: GpuiRuntimeState<K>,
    /// The contexts marked as primary.
    pub primary: Vec<GpuiContext>,
}

/// A root that was set: what goes on its camera and what its owner keeps.
pub struct RootSet<V> {
    /// To insert on the camera.
    pub context: GpuiContext,
    /// To reach the root.
    pub handle: GpuiViewHandle<V>,
}

impl<K: HostTypes> GpuiContexts<K> {
    /// A typed handle for the root marked as primary.
    ///
    /// The view type is validated when the handle is used with
    /// [`GpuiContexts::update`].
    pub fn primary<V>(&self) -> (r: Result<GpuiViewHandle<V>, PrimaryError>)
        ensures
            self.primary@.len() == 0 ==> r == Err::<GpuiViewHandle<V>, PrimaryError>(
                PrimaryError::Missing,
            ),
            self.primary@.len() == 1 ==> (r matches Ok(handle) && handle.id_spec()
                == self.primary@[0].id_spec()),
            self.primary@.len() > 1 ==> r == Err::<GpuiViewHandle<V>, PrimaryError>(
                PrimaryError::Ambiguous,
            ),
    {
        match primary_context(&self.primary) {
            Ok(context) => Ok(GpuiViewHandle::from_context(&context)),
            Err(error) => Err(error),
        }
    }

    /// Hands out the id of a new root. Where an application runs, the root has to
    /// be opened in it before [`GpuiContexts::set_root`].
    pub fn reserve_root(&mut self, features: GpuiFeatures) -> (r: Result<u64, ContextError>)
        requires
            old(self).state@.next_id < u64::MAX,
        ensures
            !features.render ==> r == Err::<u64, ContextError>(ContextError::RenderDisabled)
                && final(self).state@ == old(self).state@,
            features.render ==> r == Ok::<u64, ContextError>(old(self).state@.next_id)
                && final(self).state@ == old(self).state@.reserved(),
            final(self).primary == old(self).primary,
    {
        if !features.render {
            return Err(ContextError::RenderDisabled);
        }
        let id: u64 = self.state.next_id;
        self.state.next_id = id + 1;
        Ok(id)
    }

    /// Sets a reserved root, where `opened` tells how opening it in a running
    /// application went. A root that could not be opened is not set, and its id is
    /// not used again. Before an application runs the root is queued: it is
    /// materialized once one does, and again whenever one is started anew, always
    /// under the same id.
    ///
    /// The options of the root's window belong to its factory.
    pub fn set_root_with_options<V, E>(
        &mut self,
        id: u64,
        opened: Result<(), E>,
        factory: K::RootFactory,
    ) -> (r: Result<RootSet<V>, E>)
        ensures
            opened matches Err(error) ==> r == Err::<RootSet<V>, E>(error) && final(self).state@
                == old(self).state@,
            opened is Ok ==> (r matches Ok(set) && set.context.id_spec() == id
                && set.handle.id_spec() == id) && final(self).state@ == old(
                self,
            ).state@.with_factory(id, factory),
            final(self).primary == old(self).primary,
    {
        match opened {
            Err(error) => Err(error),
            Ok(()) => {
                self.state.root_factories.insert(id, factory);
                Ok(
                    RootSet {
                        context: GpuiContext { id },
                        handle: GpuiViewHandle { id, view_type: PhantomData },
                    },
                )
            },
        }
    }

    /// Sets a reserved root whose window has default options, as
    /// [`GpuiContexts::set_root_with_options`] does.
    pub fn set_root<V, E>(
        &mut self,
        id: u64,
        opened: Result<(), E>,
        factory: K::RootFactory,
    ) -> (r: Result<RootSet<V>, E>)
        ensures
            opened matches Err(error) ==> r == Err::<RootSet<V>, E>(error) && final(self).state@
                == old(self).state@,
            opened is Ok ==> (r matches Ok(set) && set.context.id_spec() == id
                && set.handle.id_spec() == id) && final(self).state@ == old(
                self,
            ).state@.with_factory(id, factory),
            final(self).primary == old(self).primary,
    {
        self.set_root_with_options(id, opened, factory)
    }

    /// Where a handle leads: to the application's window of its root.
    pub fn update<V>(&self, handle: &GpuiViewHandle<V>) -> (r: Result<&K::Handle, ContextError>)
        ensures
            match self.state@.lookup(handle.id_spec()) {
                Ok(window) => r == Ok::<&K::Handle, ContextError>(&window),
                Err(error) => r == Err::<&K::Handle, ContextError>(error),
            },
    {
        match &self.state.runtime {
            None => Err(ContextError::NotReady),
            Some(runtime) => match runtime.windows.get(&handle.id) {
                Some(window) => Ok(window),
                None => Err(ContextError::StaleOrPending),
            },
        }
    }
}

/// The window a handle leads to under the type it promises.
pub fn typed_window<W>(window: Option<W>) -> (r: Result<W, ContextError>)
    ensures
        r == (match window {
            Some(window) => Ok::<W, ContextError>(window),
            None => Err(ContextError::WrongType),
        }),
{
    match window {
        Some(window) => Ok(window),
        None => Err(ContextError::WrongType),
    }
}

/// Whether the host application is to exit: the embedded application asked for it
/// and there is somebody to tell. The request is forgotten either way.
pub fn exit_due<K: HostTypes>(platform: &mut BevyPlatform<K>, can_exit: bool) -> (r: bool)
    ensures
        r == (old(platform)@.quit_requested && can_exit),
        final(platform)@ == (PlatformView::<K> { quit_requested: false, ..old(platform)@ }),
{
    let requested: bool = platform.quit_requested();
    requested && can_exit
}

/// Whether a root needs a frame: it is dirty, or an image it shows was missing.
/// A root that could not be asked is not dirty.
pub fn frame_due(dirty: Option<bool>, retry_missing_images: bool) -> (r: bool)
    ensures
        r == (dirty == Some(true) || retry_missing_images),
{
    match dirty {
        Some(dirty) => dirty || retry_missing_images,
        None => retry_missing_images,
    }
}

/// Takes the latest scene of a root for its camera, and counts it. A scene whose
/// camera is gone is dropped.
pub fn take_scene<K: HostTypes>(
    platform: &mut BevyPlatform<K>,
    id: u64,
    camera_exists: bool,
    status: &mut GpuiRuntimeStatus,
) -> (r: Option<GpuiScene<K::Snapshot>>)
    requires
        camera_exists && old(platform)@.waiting_scene(id) is Some ==> old(status).scenes_built
            < u64::MAX,
    ensures
        match old(platform)@.waiting_scene(id) {
            Some(snapshot) if camera_exists => {
                &&& r matches Some(scene) && *scene.snapshot == snapshot && scene.generation == old(
                    platform,
                )@.last_generation(id)
                &&& *final(status) == (GpuiRuntimeStatus {
                    scenes_built: (old(status).scenes_built + 1) as u64,
                    ..*old(status)
                })
            },
            _ => r is None && *final(status) == *old(status),
        },
        final(platform)@ == (if old(platform)@.windows.contains_key(id) {
            old(platform)@.with_window(
                id,
                crate::window::BevyPlatformWindow::<K> {
                    latest_snapshot: None,
                    ..old(platform)@.windows[id]
                },
            )
        } else {
            old(platform)@
        }),
{
    match platform.take_latest_snapshot(id) {
        Some((generation, snapshot)) => {
            if camera_exists {
                status.scenes_built = status.scenes_built + 1;
                Some(GpuiScene::new(snapshot, generation))
            } else {
                None
            }
        },
        None => None,
    }
}

/// Ids are never handed out twice: each is larger than all before it, and every
/// root that can be built has one of them.
pub proof fn law_ids_are_fresh<K: HostTypes>(
    state: StateView<K>,
    id: u64,
    factory: K::RootFactory,
)
    requires
        state.ids_are_handed_out(),
        1 <= state.next_id < u64::MAX,
        id == state.next_id,
    ensures
        !state.root_factories.contains_key(id),
        state.reserved().next_id > id,
        state.reserved().ids_are_handed_out(),
        state.reserved().with_factory(id, factory).ids_are_handed_out(),
{
    if state.root_factories.contains_key(id) {
        assert(state.root_factories.dom().contains(id));
    }
}

/// A handle reaches its root as soon as the root is open, and no earlier; before
/// an application runs it reports that.
pub proof fn law_handle_reaches_open_root<K: HostTypes>(
    state: StateView<K>,
    runtime: GpuiRuntime<K>,
    id: u64,
    handle: K::Handle,
)
    requires
        state.runtime == Some(runtime),
    ensures
        runtime@.windows.contains_key(id) ==> state.lookup(id) == Ok::<K::Handle, ContextError>(
            runtime@.windows[id],
        ),
        !runtime@.windows.contains_key(id) ==> state.lookup(id) == Err::<K::Handle, ContextError>(
            ContextError::StaleOrPending,
        ),
        (StateView::<K> { runtime: None, ..state }).lookup(id) == Err::<K::Handle, ContextError>(
            ContextError::NotReady,
        ),
{
}

/// A replaced device loses no root: everything that can be built and is on a
/// camera is materialized again in the application started on the new device,
/// under the ids it had, and the generations of its scenes are kept.
pub proof fn law_recovery_rebuilds_all_roots<K: HostTypes>(
    state: StateView<K>,
    platform: PlatformView<K>,
    generation: u64,
    started: GpuiRuntime<K>,
    active: Set<u64>,
)
    requires
        state.device_replaced(generation),
        started@ == RuntimeView::<K>::started(),
    ensures
        ({
            let recovered = StateView::<K> {
                runtime: Some(started),
                gpu_generation: Some(generation),
                ..state.planned(Some(generation), Some(platform))
            };
            &&& recovered.scene_generations == platform.all_generations()
            &&& recovered.root_factories == state.root_factories
            &&& recovered.next_id == state.next_id
            &&& recovered.unmaterialized(active) == state.root_factories.dom().intersect(active)
            &&& !recovered.device_replaced(generation)
        }),
{
    assert(state.root_factories.dom().intersect(active).difference(Set::<u64>::empty())
        =~= state.root_factories.dom().intersect(active));
}

/// A replaced device is counted as one recovery and reported as not ready with no
/// roots, and an unchanged one changes nothing.
pub proof fn law_recovery_is_counted<K: HostTypes>(
    state: StateView<K>,
    status: GpuiRuntimeStatus,
    platform: Option<PlatformView<K>>,
    generation: u64,
)
    requires
        status.recoveries < u64::MAX,
    ensures
        state.device_replaced(generation) ==> {
            let after = status_planned(status, state, Some(generation));
            &&& !after.ready
            &&& after.roots == 0
            &&& after.recoveries == status.recoveries + 1
            &&& after.scenes_built == status.scenes_built
        },
        !state.device_replaced(generation) ==> status_planned(status, state, Some(generation))
            == status && state.planned(Some(generation), platform) == state,
{
}

/// The application once roots were built one after another, where `windows` holds the
/// window of each root or `None` for one that failed.
pub open spec fn built<K: HostTypes>(
    runtime: RuntimeView<K>,
    ids: Seq<u64>,
    windows: Seq<Option<K::Handle>>,
) -> RuntimeView<K>
    decreases ids.len(),
{
    if ids.len() == 0 {
        runtime
    } else {
        let before = built(runtime, ids.drop_last(), windows);
        match windows[ids.len() - 1] {
            Some(window) => before.opened(ids.last(), window),
            None => before,
        }
    }
}

/// How many of some roots were built.
pub open spec fn built_count<H>(windows: Seq<Option<H>>) -> nat
    decreases windows.len(),
{
    if windows.len() == 0 {
        0
    } else {
        built_count(windows.drop_last()) + if windows.last() is Some {
            1nat
        } else {
            0nat
        }
    }
}

/// The roots that failed to be built.
pub open spec fn failed<H>(ids: Seq<u64>, windows: Seq<Option<H>>) -> Set<u64> {
    Set::new(
        |id: u64|
            exists|i: int| 0 <= i < ids.len() && #[trigger] ids[i] == id && windows[i] is None,
    )
}

proof fn lemma_built<K: HostTypes>(
    runtime: RuntimeView<K>,
    ids: Seq<u64>,
    windows: Seq<Option<K::Handle>>,
    id: u64,
)
    requires
        ids.len() <= windows.len(),
    ensures
        built(runtime, ids, windows).contexts.contains_key(id) <==> runtime.contexts.contains_key(id)
            || exists|i: int| 0 <= i < ids.len() && #[trigger] ids[i] == id && windows[i] is Some,
    decreases ids.len(),
{
    if ids.len() > 0 {
        let rest = ids.drop_last();
        let n = ids.len() - 1;
        lemma_built(runtime, rest, windows, id);
        assert(forall|i: int| 0 <= i < n ==> rest[i] == #[trigger] ids[i]);
        assert(ids[n] == ids.last());
        if exists|i: int| 0 <= i < rest.len() && #[trigger] rest[i] == id && windows[i] is Some {
            let i = choose|i: int|
                0 <= i < rest.len() && #[trigger] rest[i] == id && windows[i] is Some;
            assert(ids[i] == id);
        }
        if exists|i: int| 0 <= i < ids.len() && #[trigger] ids[i] == id && windows[i] is Some {
            let i = choose|i: int|
                0 <= i < ids.len() && #[trigger] ids[i] == id && windows[i] is Some;
            if i < n {
                assert(rest[i] == id);
            }
        }
    }
}

/// A pass that builds roots leaves exactly those pending that failed, so a later pass
/// on the same device builds only these again and counts no recovery.
pub proof fn law_failed_roots_stay_pending<K: HostTypes>(
    state: StateView<K>,
    status: GpuiRuntimeStatus,
    generation: u64,
    before: GpuiRuntime<K>,
    after: GpuiRuntime<K>,
    active: Set<u64>,
    ids: Seq<u64>,
    windows: Seq<Option<K::Handle>>,
    platform: Option<PlatformView<K>>,
)
    requires
        state.runtime == Some(before),
        state.gpu_generation == Some(generation),
        lists(ids, state.unmaterialized(active)),
        windows.len() == ids.len(),
        after@ == built(before@, ids, windows),
    ensures
        ({
            let done = StateView::<K> { runtime: Some(after), ..state };
            &&& done.unmaterialized(active) == failed(ids, windows)
            &&& done.planned(Some(generation), platform) == done
            &&& status_planned(status, done, Some(generation)) == status
        }),
{
    let done = StateView::<K> { runtime: Some(after), ..state };
    let pending = state.unmaterialized(active);
    assert forall|id: u64| done.unmaterialized(active).contains(id) <==> failed(
        ids,
        windows,
    ).contains(id) by {
        lemma_built(before@, ids, windows, id);
        assert(pending.contains(id) <==> ids.to_set().contains(id));
        if pending.contains(id) {
            let i = choose|i: int| 0 <= i < ids.len() && ids[i] == id;
            assert(ids[i] == id);
            if exists|j: int| 0 <= j < ids.len() && #[trigger] ids[j] == id && windows[j] is Some {
                let j = choose|j: int|
                    0 <= j < ids.len() && #[trigger] ids[j] == id && windows[j] is Some;
                assert(ids[i] == ids[j]);
            }
        }
        if failed(ids, windows).contains(id) {
            let i = choose|i: int|
                0 <= i < ids.len() && #[trigger] ids[i] == id && windows[i] is None;
            assert(ids.to_set().contains(ids[i]));
            if exists|j: int| 0 <= j < ids.len() && #[trigger] ids[j] == id && windows[j] is Some {
                let j = choose|j: int|
                    0 <= j < ids.len() && #[trigger] ids[j] == id && windows[j] is Some;
                assert(ids[i] == ids[j]);
            }
        }
    }
    assert(done.unmaterialized(active) =~= failed(ids, windows));
}

/// The status once roots were built one after another.
pub open spec fn status_built(status: GpuiRuntimeStatus, count: nat) -> GpuiRuntimeStatus {
    GpuiRuntimeStatus { roots: (status.roots + count) as usize, ..status }
}

/// After a recovery whose application starts, the status is ready on the new device,
/// counts one more recovery, and counts exactly the roots that were built; and the
/// roots that were to be built are those of cameras, each once, under its id.
pub proof fn law_recovery_counts_built_roots<K: HostTypes>(
    state: StateView<K>,
    status: GpuiRuntimeStatus,
    platform: PlatformView<K>,
    generation: u64,
    started: GpuiRuntime<K>,
    active: Set<u64>,
    ids: Seq<u64>,
    windows: Seq<Option<K::Handle>>,
)
    requires
        state.device_replaced(generation),
        started@ == RuntimeView::<K>::started(),
        status.recoveries < u64::MAX,
        built_count(windows) <= usize::MAX,
        lists(
            ids,
            (StateView::<K> {
                runtime: Some(started),
                gpu_generation: Some(generation),
                ..state.planned(Some(generation), Some(platform))
            }).unmaterialized(active),
        ),
    ensures
        ids.no_duplicates(),
        ids.to_set() == state.root_factories.dom().intersect(active),
        ({
            let end = status_built(
                status_started(status_planned(status, state, Some(generation)), generation),
                built_count(windows),
            );
            &&& end.ready
            &&& end.gpu_generation == generation
            &&& end.recoveries == status.recoveries + 1
            &&& end.roots == built_count(windows)
        }),
{
    law_recovery_rebuilds_all_roots(state, platform, generation, started, active);
}

/// A root that was set before the application runs is materialized once it does.
pub proof fn law_queued_root_is_materialized<K: HostTypes>(
    state: StateView<K>,
    id: u64,
    factory: K::RootFactory,
    started: GpuiRuntime<K>,
    active: Set<u64>,
)
    requires
        started@ == RuntimeView::<K>::started(),
        active.contains(id),
    ensures
        (StateView::<K> {
            runtime: Some(started),
            ..state.with_factory(id, factory)
        }).unmaterialized(active).contains(id),
{
}

/// At first nothing runs, no root is known, no device was used, nothing is counted, and
/// every id from one on is free.
pub proof fn law_nothing_runs_at_first<K: HostTypes>(id: u64, active: Set<u64>)
    ensures
        ({
            let state = StateView::<K>::initial();
            let status = GpuiRuntimeStatus::initial();
            &&& state.runtime is None && state.gpu_generation is None
            &&& !state.root_factories.contains_key(id)
            &&& !state.unmaterialized(active).contains(id)
            &&& state.next_id == 1 && state.ids_are_handed_out()
            &&& !status.ready && status.roots == 0 && status.scenes_built == 0
                && status.gpu_generation == 0 && status.recoveries == 0
        }),
{
}

/// A device counts as replaced exactly where an application runs on a device of another
/// generation. Only then is the application given up: what builds the roots and the
/// next id stay in every case, and the generations of its scenes are kept.
pub proof fn law_only_another_device_ends_the_application<K: HostTypes>(
    state: StateView<K>,
    platform: Option<PlatformView<K>>,
    generation: Option<u64>,
    id: u64,
)
    ensures
        ({
            let after = state.planned(generation, platform);
            let replaced = generation is Some && state.runtime is Some && state.gpu_generation is Some
                && state.gpu_generation->0 != generation->0;
            &&& generation matches Some(current) ==> state.device_replaced(current) == replaced
            &&& replaced ==> after.runtime is None
            &&& !replaced ==> after == state
            &&& after.root_factories == state.root_factories
            &&& after.next_id == state.next_id
            &&& after.gpu_generation == state.gpu_generation
            &&& replaced && platform is Some ==> (after.scene_generations.contains_key(id)
                <==> platform->0.windows.contains_key(id)
                || platform->0.scene_generations.contains_key(id))
            &&& replaced && platform is Some && platform->0.windows.contains_key(id)
                ==> after.scene_generations[id] == platform->0.windows[id].scene_generation
        }),
{
}

/// The status after a device was looked at: where it was replaced it is not ready, has
/// no roots and counts one more recovery as far as it can count; otherwise it is as it
/// was. An application that started makes it ready on its device and changes no count.
pub proof fn law_status_follows_the_device<K: HostTypes>(
    status: GpuiRuntimeStatus,
    state: StateView<K>,
    generation: Option<u64>,
    started: u64,
)
    ensures
        ({
            let after = status_planned(status, state, generation);
            let replaced = generation is Some && state.runtime is Some && state.gpu_generation is Some
                && state.gpu_generation->0 != generation->0;
            &&& replaced ==> !after.ready && after.roots == 0 && after.recoveries == if status.recoveries
                < u64::MAX {
                status.recoveries + 1
            } else {
                u64::MAX as int
            }
            &&& !replaced ==> after == status
            &&& after.scenes_built == status.scenes_built
            &&& after.gpu_generation == status.gpu_generation
        }),
        ({
            let after = status_started(status, started);
            &&& after.ready
            &&& after.gpu_generation == started
            &&& after.roots == status.roots
            &&& after.scenes_built == status.scenes_built
            &&& after.recoveries == status.recoveries
        }),
{
}

/// A root is to be materialized exactly where an application runs, the root can be
/// built and is on a camera, and the application does not know it yet.
pub proof fn law_roots_on_cameras_are_materialized<K: HostTypes>(
    state: StateView<K>,
    active: Set<u64>,
    id: u64,
)
    ensures
        state.unmaterialized(active).contains(id) <==> (state.runtime matches Some(runtime)
            && !runtime@.contexts.contains_key(id)) && state.root_factories.contains_key(id)
            && active.contains(id),
{
}

/// Handing out an id moves on by one and changes nothing else; what builds a root is
/// kept under its id and for it alone until it is removed.
pub proof fn law_builders_are_kept_by_id<K: HostTypes>(
    state: StateView<K>,
    id: u64,
    factory: K::RootFactory,
    other: u64,
)
    requires
        state.next_id < u64::MAX,
    ensures
        state.reserved().next_id == state.next_id + 1,
        state.reserved() == (StateView::<K> { next_id: state.reserved().next_id, ..state }),
        state.with_factory(id, factory).root_factories.contains_key(id),
        state.with_factory(id, factory).root_factories[id] == factory,
        !state.without_factory(id).root_factories.contains_key(id),
        other != id ==> (state.with_factory(id, factory).root_factories.contains_key(other)
            <==> state.root_factories.contains_key(other)) && (state.without_factory(
            id,
        ).root_factories.contains_key(other) <==> state.root_factories.contains_key(other)),
        state.with_factory(id, factory).next_id == state.next_id && state.with_factory(
            id,
            factory,
        ).runtime == state.runtime,
        state.without_factory(id).next_id == state.next_id && state.without_factory(id).runtime
            == state.runtime,
{
}

/// A root needs a frame where it says that it is dirty or where an image was missing,
/// and only then; a root that cannot say is not dirty.
pub proof fn law_frames_are_due_when_dirty_or_missing(
    dirty: Option<bool>,
    retry_missing_images: bool,
    due: bool,
)
    requires
        call_ensures(frame_due, (dirty, retry_missing_images), due),
    ensures
        retry_missing_images ==> due,
        dirty == Some(true) ==> due,
        !retry_missing_images && dirty != Some(true) ==> !due,
{
}

/// There is a primary root exactly where one context is marked, and it is that one;
/// none and several are told apart.
pub proof fn law_primary_root_is_the_marked_one(
    marked: Vec<GpuiContext>,
    r: Result<GpuiContext, PrimaryError>,
)
    requires
        call_ensures(primary_context, (&marked,), r),
    ensures
        r is Ok <==> marked@.len() == 1,
        r matches Ok(context) ==> marked@.contains(context),
        r == Err::<GpuiContext, PrimaryError>(PrimaryError::Missing) <==> marked@.len() == 0,
        r == Err::<GpuiContext, PrimaryError>(PrimaryError::Ambiguous) <==> marked@.len() >= 2,
{
    if marked@.len() == 1 {
        assert(marked@.contains(marked@[0]));
    }
}

/// The host exits exactly where the application asked for it and somebody can be told,
/// and a request is honoured once.
pub proof fn law_exit_is_asked_for_once<K: HostTypes>(
    platform: &mut BevyPlatform<K>,
    can_exit: bool,
    due: bool,
)
    requires
        call_ensures(exit_due::<K>, (platform, can_exit), due),
    ensures
        due <==> old(platform)@.quit_requested && can_exit,
        !final(platform)@.quit_requested,
{
}

/// A device decides what happens: without one nothing does, an application on the same
/// device runs on, one on another is shut down and a new one started, and where none
/// runs one is started.
pub proof fn law_devices_decide_what_starts<K: HostTypes>(
    state: &mut GpuiRuntimeState<K>,
    status: &mut GpuiRuntimeStatus,
    platform: Option<&BevyPlatform<K>>,
    generation: Option<u64>,
    plan: StartPlan<K>,
)
    requires
        call_ensures(
            GpuiRuntimeState::<K>::plan_start,
            (state, status, platform, generation),
            plan,
        ),
    ensures
        plan is Wait <==> generation is None,
        plan is Keep <==> generation is Some && old(state)@.runtime is Some && (old(
            state,
        )@.gpu_generation is None || old(state)@.gpu_generation == generation),
        plan matches StartPlan::Start { shutdown } ==> shutdown == old(state)@.runtime,
        plan is Start ==> final(state)@.runtime is None && final(state)@.root_factories == old(
            state,
        )@.root_factories,
        !(plan is Start) ==> final(state)@ == old(state)@ && *final(status) == *old(status),
{
}

/// A root that was set is reachable under its id by what goes on its camera and by what
/// its owner keeps, and can be built; one that could not be opened leaves no trace.
pub proof fn law_set_roots_share_their_id<K: HostTypes, V, E>(
    contexts: &mut GpuiContexts<K>,
    id: u64,
    opened: Result<(), E>,
    factory: K::RootFactory,
    r: Result<RootSet<V>, E>,
)
    requires
        call_ensures(
            GpuiContexts::<K>::set_root_with_options::<V, E>,
            (contexts, id, opened, factory),
            r,
        ),
    ensures
        r is Ok <==> opened is Ok,
        r matches Ok(set) ==> set.context.id_spec() == id && set.handle.id_spec() == id && final(contexts).state@.root_factories.contains_key(id) && final(contexts).state@.root_factories[id]
            == factory,
        r is Err ==> final(contexts).state@ == old(contexts).state@,
{
}

/// A build that draws hands out the next id once, and one that does not hands out none.
pub proof fn law_ids_are_handed_out_once<K: HostTypes>(
    contexts: &mut GpuiContexts<K>,
    features: GpuiFeatures,
    r: Result<u64, ContextError>,
)
    requires
        old(contexts).state@.next_id < u64::MAX,
        call_ensures(GpuiContexts::<K>::reserve_root, (contexts, features), r),
    ensures
        r is Ok <==> features.render,
        r matches Ok(id) ==> id == old(contexts).state@.next_id && final(contexts).state@.next_id
            > id,
        r is Err ==> r == Err::<u64, ContextError>(ContextError::RenderDisabled) && final(contexts).state@ == old(contexts).state@,
{
}

/// A scene goes to its camera once, with its generation, and is counted; one without a
/// camera is dropped and not counted.
pub proof fn law_scenes_are_delivered_once<K: HostTypes>(
    platform: &mut BevyPlatform<K>,
    id: u64,
    camera_exists: bool,
    status: &mut GpuiRuntimeStatus,
    r: Option<GpuiScene<K::Snapshot>>,
)
    requires
        old(status).scenes_built < u64::MAX,
        call_ensures(take_scene::<K>, (platform, id, camera_exists, status), r),
    ensures
        r is Some <==> camera_exists && old(platform)@.waiting_scene(id) is Some,
        r matches Some(scene) ==> Some(*scene.snapshot) == old(platform)@.waiting_scene(id)
            && scene.generation == old(platform)@.last_generation(id),
        final(status).scenes_built == old(status).scenes_built + if r is Some {
            1int
        } else {
            0
        },
        final(platform)@.waiting_scene(id) is None,
        final(platform)@.last_generation(id) == old(platform)@.last_generation(id),
{
}

/// Each error says what happened.
pub proof fn law_errors_say_what_happened(error: ContextError)
    ensures
        error is RenderDisabled ==> error.message_spec()
            == "GpuiContexts::set_root requires bevy_gpui's `render` feature"@,
        error is NotReady ==> error.message_spec()
            == "the embedded GPUI runtime is not ready yet"@,
        error is StaleOrPending ==> error.message_spec()
            == "GPUI view handle is stale or still pending"@,
        error is WrongType ==> error.message_spec() == "GPUI view handle has the wrong view type"@,
{
}

/// A handle leads to a window exactly where the window has the type it promises.
pub proof fn law_handles_check_their_type<W>(window: Option<W>, r: Result<W, ContextError>)
    requires
        call_ensures(typed_window::<W>, (window,), r),
    ensures
        window matches Some(found) ==> r == Ok::<W, ContextError>(found),
        window is None ==> r == Err::<W, ContextError>(ContextError::WrongType),
{
}

/// Roots are counted up by one when they are materialized and down by one when they go
/// away, not below zero; nothing else in the status changes.
pub proof fn law_roots_are_counted(
    materialized: &mut GpuiRuntimeStatus,
    removed: &mut GpuiRuntimeStatus,
)
    requires
        old(materialized).roots < usize::MAX,
        call_ensures(note_materialized, (materialized,), ()),
        call_ensures(note_removed, (removed,), ()),
    ensures
        final(materialized).roots == old(materialized).roots + 1,
        old(removed).roots > 0 ==> final(removed).roots == old(removed).roots - 1,
        old(removed).roots == 0 ==> final(removed).roots == 0,
        *final(materialized) == (GpuiRuntimeStatus {
            roots: final(materialized).roots,
            ..*old(materialized)
        }),
        *final(removed) == (GpuiRuntimeStatus { roots: final(removed).roots, ..*old(removed) }),
{
}

/// An application that was started runs without roots, in the foreground, on its device,
/// and its scenes go on from the generations that were kept.
pub proof fn law_started_application_is_empty<K: HostTypes>(
    state: &mut GpuiRuntimeState<K>,
    status: &mut GpuiRuntimeStatus,
    platform: &mut BevyPlatform<K>,
    generation: u64,
    id: u64,
)
    requires
        call_ensures(
            GpuiRuntimeState::<K>::install_runtime,
            (state, status, platform, generation),
            (),
        ),
    ensures
        final(state)@.runtime matches Some(runtime) && runtime@.application_active
            && !runtime@.contexts.contains_key(id) && runtime@.mapped(id).len() == 0,
        final(state)@.gpu_generation == Some(generation),
        final(state)@.root_factories == old(state)@.root_factories,
        final(state)@.next_id == old(state)@.next_id,
        final(status).ready && final(status).gpu_generation == generation,
        final(status).recoveries == old(status).recoveries,
        final(platform)@.scene_generations == old(state)@.scene_generations,
        final(platform)@.windows == old(platform)@.windows,
{
}

} // verus!
