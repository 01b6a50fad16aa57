//! Synchronization of host cameras and windows with the embedded runtime.
use crate::contexts::{ContextError, GpuiRuntimeState, GpuiRuntimeStatus, StateView};
use crate::cursor::{
    map_cursor_style, system_cursor, CursorStyle, SystemCursorIcon, WindowBackgroundAppearance,
};
use crate::geometry::{Point, Size};
use crate::host::HostTypes;
use crate::ids::{contains_id, lists, map_ids};
use crate::keys::ButtonState;
use crate::platform::{BevyPlatform, PlatformView};
use crate::runtime::{ContextBinding, GpuiRuntime, RuntimeView};
use crate::window::{BevyPlatformWindow, BevyWindowOutput};
use vstd::prelude::*;

verus! {

broadcast use vstd::std_specs::hash::group_hash_axioms;

/// What a host camera draws to.
#[derive(Clone, Copy, Debug, PartialEq, Eq, Structural)]
pub enum HostTarget {
    /// Whichever window is the primary one.
    PrimaryWindow,
    /// A window.
    Window(u64),
    /// An image or nothing.
    Offscreen,
}

impl HostTarget {
    /// The window a camera draws to, where `primary` is the primary one.
    pub open spec fn window_spec(self, primary: Option<u64>) -> Option<u64> {
        match self {
            HostTarget::PrimaryWindow => primary,
            HostTarget::Window(window) => Some(window),
            HostTarget::Offscreen => None,
        }
    }

    /// The window a camera draws to, where `primary` is the primary one.
    pub fn window(self, primary: Option<u64>) -> (r: Option<u64>)
        ensures
            r == self.window_spec(primary),
    {
        match self {
            HostTarget::PrimaryWindow => primary,
            HostTarget::Window(window) => Some(window),
            HostTarget::Offscreen => None,
        }
    }
}

/// A host camera that may get a root.
#[derive(Clone, Copy, Debug, PartialEq, Eq, Structural)]
pub struct HostCamera {
    /// The camera.
    pub entity: u64,
    /// Whether it draws.
    pub is_active: bool,
    /// What it draws to.
    pub target: HostTarget,
    /// Its rank: higher ranks are in front.
    pub order: i64,
    /// Whether it has a root.
    pub has_context: bool,
}

impl HostCamera {
    /// Whether the camera draws to the primary window.
    pub open spec fn on_primary(self, primary: Option<u64>) -> bool {
        self.is_active && primary is Some && self.target.window_spec(primary) == primary
    }

    /// Whether the camera draws to the primary window.
    fn is_on_primary(&self, primary: Option<u64>) -> (r: bool)
        ensures
            r == self.on_primary(primary),
    {
        if !self.is_active {
            return false;
        }
        match (self.target.window(primary), primary) {
            (Some(window), Some(main)) => window == main,
            _ => false,
        }
    }
}

/// Whether a camera is the one to get a root: of those on the primary window it is
/// the last of the highest rank.
pub open spec fn is_frontmost(cameras: Seq<HostCamera>, primary: Option<u64>, index: int) -> bool {
    &&& 0 <= index < cameras.len()
    &&& cameras[index].on_primary(primary)
    &&& forall|j: int|
        0 <= j < cameras.len() && (#[trigger] cameras[j]).on_primary(primary) ==> if j <= index {
            cameras[j].order <= cameras[index].order
        } else {
            cameras[j].order < cameras[index].order
        }
}

/// Whether some camera on the primary window has a root.
pub open spec fn has_attached(cameras: Seq<HostCamera>, primary: Option<u64>) -> bool {
    exists|j: int|
        0 <= j < cameras.len() && (#[trigger] cameras[j]).on_primary(primary)
            && cameras[j].has_context
}

/// Whether some camera is on the primary window.
pub open spec fn has_candidate(cameras: Seq<HostCamera>, primary: Option<u64>) -> bool {
    exists|j: int| 0 <= j < cameras.len() && (#[trigger] cameras[j]).on_primary(primary)
}

/// The camera that gets a root of its own accord: where that is wanted and no
/// camera on the primary window has one yet, the frontmost of them.
pub fn auto_attach_primary(
    enabled: bool,
    cameras: &Vec<HostCamera>,
    primary_window: Option<u64>,
) -> (r: Option<u64>)
    ensures
        r is Some <==> enabled && !has_attached(cameras@, primary_window) && has_candidate(
            cameras@,
            primary_window,
        ),
        r matches Some(entity) ==> exists|i: int| #[trigger]
            is_frontmost(cameras@, primary_window, i) && cameras@[i].entity == entity,
{
    if !enabled {
        return None;
    }
    let mut selected: Option<usize> = None;
    let mut index: usize = 0;
    while index < cameras.len()
        invariant
            index <= cameras@.len(),
            forall|j: int|
                0 <= j < index && (#[trigger] cameras@[j]).on_primary(primary_window)
                    ==> !cameras@[j].has_context,
            selected is None ==> forall|j: int|
                0 <= j < index ==> !(#[trigger] cameras@[j]).on_primary(primary_window),
            selected matches Some(s) ==> {
                &&& s < index
                &&& cameras@[s as int].on_primary(primary_window)
                &&& forall|j: int|
                    0 <= j < index && (#[trigger] cameras@[j]).on_primary(primary_window)
                        ==> if j <= s {
                        cameras@[j].order <= cameras@[s as int].order
                    } else {
                        cameras@[j].order < cameras@[s as int].order
                    }
            },
        decreases cameras@.len() - index,
    {
        let camera = &cameras[index];
        if camera.is_on_primary(primary_window) {
            if camera.has_context {
                assert(cameras@[index as int].on_primary(primary_window));
                return None;
            }
            let front: bool = match selected {
                Some(best) => camera.order >= cameras[best].order,
                None => true,
            };
            if front {
                selected = Some(index);
            }
        }
        index = index + 1;
    }
    match selected {
        Some(best) => {
            assert(is_frontmost(cameras@, primary_window, best as int));
            Some(cameras[best].entity)
        },
        None => None,
    }
}

/// A camera with a root.
#[derive(Clone, Copy, Debug, PartialEq, Eq, Structural)]
pub struct ContextCamera {
    /// The camera.
    pub entity: u64,
    /// The context id of its root.
    pub id: u64,
    /// What it draws to.
    pub target: HostTarget,
}

/// Whether a camera draws to a window, and that window is one of some windows or is
/// not.
pub open spec fn drawing(primary: Option<u64>, windows: Set<u64>, among: bool) -> spec_fn(
    ContextCamera,
) -> bool {
    |camera: ContextCamera|
        camera.target.window_spec(primary) matches Some(window) && windows.contains(window) == among
}

/// The cameras that draw to a window which is one of some windows, or which is not.
fn cameras_drawing(
    cameras: &Vec<ContextCamera>,
    windows: &Vec<u64>,
    primary_window: Option<u64>,
    among: bool,
) -> (r: Vec<ContextCamera>)
    ensures
        r@ == cameras@.filter(drawing(primary_window, windows@.to_set(), among)),
{
    let ghost keep = drawing(primary_window, windows@.to_set(), among);
    let mut out: Vec<ContextCamera> = Vec::new();
    let mut index: usize = 0;
    proof {
        reveal(Seq::filter);
        assert(cameras@.take(0).filter(keep) =~= Seq::<ContextCamera>::empty());
    }
    while index < cameras.len()
        invariant
            index <= cameras@.len(),
            keep == drawing(primary_window, windows@.to_set(), among),
            out@ == cameras@.take(index as int).filter(keep),
        decreases cameras@.len() - index,
    {
        let camera: ContextCamera = cameras[index];
        proof {
            reveal(Seq::filter);
            let next = cameras@.take(index + 1);
            assert(next.drop_last() =~= cameras@.take(index as int));
            assert(next.last() == camera);
        }
        if let Some(window) = camera.target.window(primary_window) {
            proof {
                assert(windows@.to_set().contains(window) <==> windows@.contains(window));
            }
            if contains_id(windows, window) == among {
                out.push(camera);
            }
        }
        index = index + 1;
    }
    proof {
        assert(cameras@.take(cameras@.len() as int) =~= cameras@);
    }
    out
}

/// The cameras to stop because their window is about to close.
///
/// The renderer may still draw the frame before while a window closes.
pub fn prepare_window_close(
    closing: &Vec<u64>,
    cameras: &Vec<ContextCamera>,
    primary_window: Option<u64>,
) -> (r: Vec<ContextCamera>)
    ensures
        r@ == cameras@.filter(drawing(primary_window, closing@.to_set(), true)),
{
    cameras_drawing(cameras, closing, primary_window, true)
}

/// The cameras whose window is gone. They are stopped, and their roots closed.
pub fn orphaned_window_contexts(
    cameras: &Vec<ContextCamera>,
    windows: &Vec<u64>,
    primary_window: Option<u64>,
) -> (r: Vec<ContextCamera>)
    ensures
        r@ == cameras@.filter(drawing(primary_window, windows@.to_set(), false)),
{
    cameras_drawing(cameras, windows, primary_window, false)
}

/// Forgets how to build the root of an orphaned camera, and discounts it.
pub fn cleanup_orphaned_window_context<K: HostTypes>(
    state: &mut GpuiRuntimeState<K>,
    status: &mut GpuiRuntimeStatus,
    id: u64,
)
    ensures
        final(state)@ == old(state)@.without_factory(id),
        *final(status) == (GpuiRuntimeStatus {
            roots: if old(status).roots == 0 {
                0
            } else {
                (old(status).roots - 1) as usize
            },
            ..*old(status)
        }),
{
    state.remove_factory(id);
    crate::contexts::note_removed(status);
}

/// The place of an id in ids that are ordered by rank: behind all of the same or a
/// lower rank.
pub open spec fn insert_by_rank(ids: Seq<u64>, id: u64, rank: spec_fn(u64) -> int) -> Seq<u64>
    decreases ids.len(),
{
    if ids.len() == 0 || rank(ids.last()) <= rank(id) {
        ids.push(id)
    } else {
        insert_by_rank(ids.drop_last(), id, rank).push(ids.last())
    }
}

/// Ids ordered by rank, those of the same rank in the order they had.
pub open spec fn sorted_by_rank(ids: Seq<u64>, rank: spec_fn(u64) -> int) -> Seq<u64>
    decreases ids.len(),
{
    if ids.len() == 0 {
        Seq::empty()
    } else {
        insert_by_rank(sorted_by_rank(ids.drop_last(), rank), ids.last(), rank)
    }
}

/// Whether an id has a rank.
pub open spec fn of_rank(rank: spec_fn(u64) -> int, kept: int) -> spec_fn(u64) -> bool {
    |k: u64| rank(k) == kept
}

/// Whether ids are ordered by rank.
pub open spec fn ranks_ascend(ids: Seq<u64>, rank: spec_fn(u64) -> int) -> bool {
    forall|i: int, j: int| 0 <= i <= j < ids.len() ==> rank(ids[i]) <= rank(ids[j])
}

proof fn lemma_insert_by_rank(ids: Seq<u64>, id: u64, rank: spec_fn(u64) -> int, kept: int)
    requires
        ranks_ascend(ids, rank),
    ensures
        ranks_ascend(insert_by_rank(ids, id, rank), rank),
        insert_by_rank(ids, id, rank).to_multiset() == ids.to_multiset().insert(id),
        insert_by_rank(ids, id, rank).len() == ids.len() + 1,
        insert_by_rank(ids, id, rank).filter(of_rank(rank, kept)) == ids.push(id).filter(of_rank(rank, kept)),
    decreases ids.len(),
{
    let same = of_rank(rank, kept);
    let out = insert_by_rank(ids, id, rank);
    ids.to_multiset_ensures();
    reveal(Seq::filter);
    if ids.len() == 0 || rank(ids.last()) <= rank(id) {
        assert(out == ids.push(id));
        assert forall|i: int, j: int| 0 <= i <= j < out.len() implies rank(out[i]) <= rank(
            out[j],
        ) by {
            if j == ids.len() && i < j {
                assert(rank(ids[i]) <= rank(ids[ids.len() - 1]));
            }
        }
    } else {
        let rest = ids.drop_last();
        let last = ids.last();
        let inner = insert_by_rank(rest, id, rank);
        lemma_insert_by_rank(rest, id, rank, kept);
        inner.to_multiset_ensures();
        rest.to_multiset_ensures();
        assert(ids =~= rest.push(last));
        assert(out == inner.push(last));
        assert(out.to_multiset() =~= ids.to_multiset().insert(id));
        assert forall|i: int, j: int| 0 <= i <= j < out.len() implies rank(out[i]) <= rank(
            out[j],
        ) by {
            if j == inner.len() && i < j {
                lemma_contained(inner, rest, id, i);
                if inner[i] != id {
                    let k = choose|k: int| 0 <= k < rest.len() && rest[k] == inner[i];
                    assert(ids[k] == inner[i]);
                    assert(rank(ids[k]) <= rank(ids[ids.len() - 1]));
                }
            }
        }
        assert(out.drop_last() =~= inner);
        assert(rest.push(id).drop_last() =~= rest);
        assert(ids.push(id).drop_last() =~= ids);
        assert(ids.push(id).last() == id);
        assert(out.filter(same) == (if same(last) {
            inner.filter(same).push(last)
        } else {
            inner.filter(same)
        }));
        assert(ids.filter(same) == (if same(last) {
            rest.filter(same).push(last)
        } else {
            rest.filter(same)
        }));
        assert(rest.push(id).filter(same) == (if same(id) {
            rest.filter(same).push(id)
        } else {
            rest.filter(same)
        }));
        assert(ids.push(id).filter(same) == (if same(id) {
            ids.filter(same).push(id)
        } else {
            ids.filter(same)
        }));
    }
}

proof fn lemma_contained(inner: Seq<u64>, rest: Seq<u64>, id: u64, i: int)
    requires
        0 <= i < inner.len(),
        inner.to_multiset() == rest.to_multiset().insert(id),
    ensures
        inner[i] == id || rest.contains(inner[i]),
{
    inner.to_multiset_ensures();
    rest.to_multiset_ensures();
    assert(inner.contains(inner[i]));
    assert(inner.to_multiset().count(inner[i]) > 0);
}

/// Ordering roots by rank keeps them all, puts lower ranks first, and leaves roots
/// of the same rank in the order they had.
pub proof fn law_sort_is_stable(ids: Seq<u64>, rank: spec_fn(u64) -> int, kept: int)
    ensures
        ranks_ascend(sorted_by_rank(ids, rank), rank),
        sorted_by_rank(ids, rank).to_multiset() == ids.to_multiset(),
        sorted_by_rank(ids, rank).len() == ids.len(),
        sorted_by_rank(ids, rank).filter(of_rank(rank, kept)) == ids.filter(of_rank(rank, kept)),
    decreases ids.len(),
{
    if ids.len() == 0 {
        assert(sorted_by_rank(ids, rank) =~= ids);
    } else {
        let rest = ids.drop_last();
        law_sort_is_stable(rest, rank, kept);
        lemma_insert_by_rank(sorted_by_rank(rest, rank), ids.last(), rank, kept);
        rest.to_multiset_ensures();
        assert(ids =~= rest.push(ids.last()));
        reveal(Seq::filter);
        let before = sorted_by_rank(rest, rank);
        assert(before.push(ids.last()).drop_last() =~= before);
    }
}

/// Where a camera shows its root.
#[derive(Clone, Copy, Debug, PartialEq, Eq, Structural)]
pub struct CameraBinding {
    /// The context id of the root.
    pub id: u64,
    /// Where it is shown.
    pub binding: ContextBinding,
}

impl<K: HostTypes> RuntimeView<K> {
    /// The rank of a root.
    pub open spec fn rank(self) -> spec_fn(u64) -> int {
        |id: u64|
            if self.contexts.contains_key(id) {
                self.contexts[id].order as int
            } else {
                0
            }
    }

    /// The runtime with no root shown in any window.
    pub open spec fn unmapped(self) -> RuntimeView<K> {
        RuntimeView { window_contexts: Map::empty(), ..self }
    }

    /// The runtime once a camera said where it shows its root.
    pub open spec fn bound(self, camera: CameraBinding) -> RuntimeView<K> {
        if self.contexts.contains_key(camera.id) {
            RuntimeView {
                contexts: self.contexts.insert(camera.id, camera.binding),
                window_contexts: match camera.binding.window {
                    Some(window) => self.window_contexts.insert(
                        window,
                        self.mapped(window).push(camera.id),
                    ),
                    None => self.window_contexts,
                },
                ..self
            }
        } else {
            self
        }
    }

    /// The runtime once all cameras said where they show their roots.
    pub open spec fn bound_all(self, cameras: Seq<CameraBinding>) -> RuntimeView<K>
        decreases cameras.len(),
    {
        if cameras.len() == 0 {
            self
        } else {
            self.bound_all(cameras.drop_last()).bound(cameras.last())
        }
    }

    /// The runtime with the roots of each window ordered by rank.
    pub open spec fn ranked(self) -> RuntimeView<K> {
        RuntimeView {
            window_contexts: self.window_contexts.map_values(
                |ids: Seq<u64>| sorted_by_rank(ids, self.rank()),
            ),
            ..self
        }
    }

    /// Whether a window that has the host's focus or not counts as active for a
    /// root shown in it. A root that is not shown in a window is always active.
    pub open spec fn active_in(self, focused: Option<bool>) -> bool {
        match focused {
            Some(focused) => focused && self.application_active,
            None => true,
        }
    }
}

impl<K: HostTypes> GpuiRuntime<K> {
    /// The rank of a root.
    fn rank_of(&self, id: u64) -> (r: i64)
        ensures
            r == (self@.rank())(id),
    {
        match self.contexts.get(&id) {
            Some(binding) => binding.order,
            None => 0,
        }
    }

    /// Starts a synchronization: no window shows a root until a camera says so.
    /// Returns the roots that are on no camera any more, in no particular order.
    pub fn begin_sync(&mut self, live: &Vec<u64>) -> (r: Vec<u64>)
        ensures
            final(self)@ == old(self)@.unmapped(),
            lists(r@, old(self)@.contexts.dom().difference(live@.to_set())),
    {
        self.window_contexts.clear();
        proof {
            assert(self@.window_contexts =~= Map::<u64, Seq<u64>>::empty());
        }
        let ids = map_ids(&self.contexts);
        let ghost stale = self@.contexts.dom().difference(live@.to_set());
        let mut out: Vec<u64> = Vec::new();
        let mut index: usize = 0;
        while index < ids.len()
            invariant
                index <= ids@.len(),
                ids@.no_duplicates(),
                ids@.to_set() == self.contexts@.dom(),
                stale == self.contexts@.dom().difference(live@.to_set()),
                out@.no_duplicates(),
                forall|i: int|
                    0 <= i < out@.len() ==> stale.contains(#[trigger] out@[i]) && exists|j: int|
                        0 <= j < index && ids@[j] == out@[i],
                forall|i: int|
                    0 <= i < index && stale.contains(#[trigger] ids@[i]) ==> out@.contains(ids@[i]),
            decreases ids@.len() - index,
        {
            let id: u64 = ids[index];
            let ghost before = out@;
            proof {
                assert(ids@.to_set().contains(id));
                assert(live@.to_set().contains(id) <==> live@.contains(id));
                if before.contains(id) {
                    let i = choose|i: int| 0 <= i < before.len() && before[i] == id;
                    let j = choose|j: int| 0 <= j < index && ids@[j] == before[i];
                    assert(ids@[j] == ids@[index as int]);
                }
            }
            if !contains_id(live, id) {
                out.push(id);
                proof {
                    assert(out@[before.len() as int] == id);
                    assert(ids@[index as int] == id);
                }
            }
            proof {
                assert forall|i: int|
                    0 <= i < index + 1 && stale.contains(#[trigger] ids@[i]) implies out@.contains(
                    ids@[i],
                ) by {
                    if i < index {
                        let j = choose|j: int| 0 <= j < before.len() && before[j] == ids@[i];
                        assert(out@[j] == ids@[i]);
                    }
                }
                assert forall|i: int| 0 <= i < out@.len() implies stale.contains(
                    #[trigger] out@[i],
                ) && exists|j: int| 0 <= j < index + 1 && ids@[j] == out@[i] by {
                    if i < before.len() {
                        assert(out@[i] == before[i]);
                        let j = choose|j: int| 0 <= j < index && ids@[j] == before[i];
                        assert(ids@[j] == out@[i]);
                    }
                }
            }
            index = index + 1;
        }
        proof {
            assert forall|k: u64| out@.to_set().contains(k) <==> stale.contains(k) by {
                if stale.contains(k) {
                    assert(ids@.to_set().contains(k));
                    let i = choose|i: int| 0 <= i < ids@.len() && ids@[i] == k;
                    assert(out@.contains(ids@[i]));
                }
                if out@.contains(k) {
                    let i = choose|i: int| 0 <= i < out@.len() && out@[i] == k;
                    assert(stale.contains(out@[i]));
                }
            }
            assert(out@.to_set() =~= stale);
        }
        out
    }

    /// Notes where one camera shows its root. A root that does not exist is
    /// skipped, which the result tells.
    pub fn bind_camera(&mut self, camera: CameraBinding) -> (r: bool)
        ensures
            r == old(self)@.contexts.contains_key(camera.id),
            final(self)@ == old(self)@.bound(camera),
    {
        if !self.contexts.contains_key(&camera.id) {
            return false;
        }
        self.contexts.insert(camera.id, camera.binding);
        if let Some(window) = camera.binding.window {
            let mut ids: Vec<u64> = match self.window_contexts.remove(&window) {
                Some(ids) => ids,
                None => Vec::new(),
            };
            proof {
                assert(ids@ == old(self)@.mapped(window));
            }
            ids.push(camera.id);
            self.window_contexts.insert(window, ids);
            proof {
                assert(self@.window_contexts =~= old(self)@.bound(camera).window_contexts);
            }
        }
        true
    }

    /// Orders the roots of each window by rank.
    pub fn rank_windows(&mut self)
        ensures
            final(self)@ == old(self)@.ranked(),
    {
        let windows = map_ids(&self.window_contexts);
        let ghost before = self@;
        let ghost raw = self.window_contexts@;
        let ghost rank = self@.rank();
        let mut index: usize = 0;
        while index < windows.len()
            invariant
                index <= windows@.len(),
                lists(windows@, raw.dom()),
                rank == before.rank(),
                self@ == (RuntimeView::<K> { window_contexts: self@.window_contexts, ..before }),
                self@.window_contexts.dom() == before.window_contexts.dom(),
                before.window_contexts.dom() == raw.dom(),
                forall|i: int|
                    0 <= i < index ==> self@.window_contexts[#[trigger] windows@[i]]
                        == sorted_by_rank(before.window_contexts[windows@[i]], rank),
                forall|i: int|
                    index <= i < windows@.len() ==> self@.window_contexts[#[trigger] windows@[i]]
                        == before.window_contexts[windows@[i]],
            decreases windows@.len() - index,
        {
            let window: u64 = windows[index];
            proof {
                assert(windows@.to_set().contains(window));
            }
            let ghost start = self@;
            if let Some(ids) = self.window_contexts.remove(&window) {
                let sorted = self.sort_by_rank(&ids);
                self.window_contexts.insert(window, sorted);
                proof {
                    assert(self@.window_contexts =~= start.window_contexts.insert(
                        window,
                        sorted@,
                    ));
                    assert(start.window_contexts[windows@[index as int]] == ids@);
                }
            }
            index = index + 1;
        }
        proof {
            let after = before.ranked();
            assert forall|window: u64| #[trigger] after.window_contexts.dom().contains(
                window,
            ) implies self@.window_contexts[window] == after.window_contexts[window] by {
                assert(windows@.to_set().contains(window));
                let i = choose|i: int| 0 <= i < windows@.len() && windows@[i] == window;
                assert(self@.window_contexts[windows@[i]] == sorted_by_rank(
                    before.window_contexts[windows@[i]],
                    rank,
                ));
            }
            assert(self@.window_contexts =~= after.window_contexts);
        }
    }

    /// The ids ordered by rank, those of the same rank in the order they had.
    fn sort_by_rank(&self, ids: &Vec<u64>) -> (r: Vec<u64>)
        ensures
            r@ == sorted_by_rank(ids@, self@.rank()),
    {
        let ghost rank = self@.rank();
        let mut out: Vec<u64> = Vec::new();
        let mut index: usize = 0;
        while index < ids.len()
            invariant
                index <= ids@.len(),
                rank == self@.rank(),
                out@ == sorted_by_rank(ids@.take(index as int), rank),
            decreases ids@.len() - index,
        {
            let id: u64 = ids[index];
            proof {
                let next = ids@.take(index + 1);
                assert(next.drop_last() =~= ids@.take(index as int));
                assert(next.last() == id);
            }
            self.insert_ranked(&mut out, id);
            index = index + 1;
        }
        proof {
            assert(ids@.take(ids@.len() as int) =~= ids@);
        }
        out
    }

    /// Inserts an id behind all of the same or a lower rank.
    fn insert_ranked(&self, ids: &mut Vec<u64>, id: u64)
        ensures
            final(ids)@ == insert_by_rank(old(ids)@, id, self@.rank()),
    {
        let ghost rank = self@.rank();
        let ghost before = ids@;
        let own: i64 = self.rank_of(id);
        let mut at: usize = ids.len();
        proof {
            assert(before.take(at as int) =~= before);
            assert(before.skip(at as int) =~= Seq::<u64>::empty());
        }
        while at > 0 && self.rank_of(ids[at - 1]) > own
            invariant
                at <= ids@.len(),
                ids@ == before,
                rank == self@.rank(),
                own == rank(id),
                insert_by_rank(before, id, rank) == insert_by_rank(
                    before.take(at as int),
                    id,
                    rank,
                ) + before.skip(at as int),
            decreases at,
        {
            proof {
                let head = before.take(at as int);
                assert(head.last() == before[at - 1]);
                assert(head.drop_last() =~= before.take(at - 1));
                let inner = insert_by_rank(before.take(at - 1), id, rank);
                assert(insert_by_rank(head, id, rank) == inner.push(before[at - 1]));
                assert(inner.push(before[at - 1]) + before.skip(at as int) =~= inner + before.skip(
                    at - 1,
                ));
            }
            at = at - 1;
        }
        proof {
            let head = before.take(at as int);
            if at > 0 {
                assert(head.last() == before[at - 1]);
            }
            assert(insert_by_rank(head, id, rank) == head.push(id));
            assert(head.push(id) + before.skip(at as int) =~= before.insert(at as int, id));
        }
        ids.insert(at, id);
    }

    /// Whether a root counts as active, where `focused` tells whether the window
    /// it is shown in has the host's focus.
    pub fn context_active(&self, focused: Option<bool>) -> (r: bool)
        ensures
            r == self@.active_in(focused),
    {
        match focused {
            Some(focused) => focused && self.application_active,
            None => true,
        }
    }
}

/// Takes over where all cameras show their roots, the front root of each window
/// last.
pub fn bind_cameras<K: HostTypes>(runtime: &mut GpuiRuntime<K>, cameras: &Vec<CameraBinding>)
    ensures
        final(runtime)@ == old(runtime)@.bound_all(cameras@).ranked(),
{
    let ghost before = runtime@;
    let mut index: usize = 0;
    while index < cameras.len()
        invariant
            index <= cameras@.len(),
            runtime@ == before.bound_all(cameras@.take(index as int)),
        decreases cameras@.len() - index,
    {
        proof {
            let next = cameras@.take(index + 1);
            assert(next.drop_last() =~= cameras@.take(index as int));
            assert(next.last() == cameras@[index as int]);
        }
        runtime.bind_camera(cameras[index]);
        index = index + 1;
    }
    proof {
        assert(cameras@.take(cameras@.len() as int) =~= cameras@);
    }
    runtime.rank_windows();
}

/// Ends a synchronization: the status counts the roots that exist, and roots that are
/// on no camera are not built any more, whether they ever existed or not. Without a
/// running application there are no roots, and those queued for it stay.
pub fn finish_sync<K: HostTypes>(
    state: &mut GpuiRuntimeState<K>,
    status: &mut GpuiRuntimeStatus,
    live: &Vec<u64>,
)
    ensures
        final(status).roots == (match old(state)@.runtime {
            Some(runtime) => runtime@.contexts.len(),
            None => 0,
        }),
        *final(status) == (GpuiRuntimeStatus { roots: final(status).roots, ..*old(status) }),
        final(state)@ == old(state)@.synced(live@.to_set()),
{
    status.roots = match state.runtime() {
        Some(runtime) => runtime.contexts.len(),
        None => 0,
    };
    if state.runtime().is_some() {
        state.retain_factories(live);
    }
}

/// The cursor shape of a window: that of its front root, or an arrow.
pub open spec fn front_cursor<K: HostTypes>(
    platform: PlatformView<K>,
    ids: Seq<u64>,
) -> SystemCursorIcon {
    system_cursor(
        if ids.len() == 0 {
            CursorStyle::Arrow
        } else if platform.windows.contains_key(ids.last()) {
            platform.windows[ids.last()].cursor_style
        } else {
            platform.cursor
        },
    )
}

/// A window without roots shows the default cursor. A root that comes to its front
/// decides the cursor, whatever the roots behind it ask for.
pub proof fn law_front_root_decides_cursor<K: HostTypes>(
    platform: PlatformView<K>,
    behind: Seq<u64>,
    front: u64,
)
    ensures
        behind.len() == 0 ==> front_cursor(platform, behind) is Default,
        front_cursor(platform, behind.push(front)) == front_cursor(platform, seq![front]),
        platform.windows.contains_key(front) ==> front_cursor(platform, behind.push(front))
            == system_cursor(platform.windows[front].cursor_style),
        !platform.windows.contains_key(front) ==> front_cursor(platform, behind.push(front))
            == system_cursor(platform.cursor),
{
}

/// The cursor shape of a window: that of its front root, or an arrow.
pub fn window_cursor<K: HostTypes>(platform: &BevyPlatform<K>, ids: &Vec<u64>) -> (r:
    SystemCursorIcon)
    ensures
        r == front_cursor(platform@, ids@),
        r == system_cursor(
            if ids@.len() == 0 {
                CursorStyle::Arrow
            } else if platform@.windows.contains_key(ids@.last()) {
                platform@.windows[ids@.last()].cursor_style
            } else {
                platform@.cursor
            },
        ),
{
    let style = if ids.len() == 0 {
        CursorStyle::Arrow
    } else {
        platform.cursor_style(ids[ids.len() - 1])
    };
    map_cursor_style(style)
}

/// What to change about a host window.
pub struct HostWindowChanges {
    pub title: Option<String>,
    pub logical_size: Option<Size>,
    pub fullscreen: Option<bool>,
    pub minimize: bool,
    pub maximize: bool,
    pub focus: bool,
    pub ime_position: Option<Point>,
    pub cursor_visible: Option<bool>,
    pub transparent: Option<bool>,
}

impl HostWindowChanges {
    /// Nothing to change.
    pub open spec fn none_spec() -> HostWindowChanges {
        HostWindowChanges {
            title: None,
            logical_size: None,
            fullscreen: None,
            minimize: false,
            maximize: false,
            focus: false,
            ime_position: None,
            cursor_visible: None,
            transparent: None,
        }
    }

    /// The changes once a root's requests were added: a later request replaces an
    /// earlier one.
    pub open spec fn with_output(self, output: BevyWindowOutput) -> HostWindowChanges {
        HostWindowChanges {
            title: if output.title is Some {
                output.title
            } else {
                self.title
            },
            logical_size: if output.logical_size is Some {
                output.logical_size
            } else {
                self.logical_size
            },
            fullscreen: if output.fullscreen is Some {
                output.fullscreen
            } else {
                self.fullscreen
            },
            minimize: self.minimize || output.minimize,
            maximize: self.maximize || output.maximize,
            focus: self.focus || output.activate,
            ime_position: if output.ime_position is Some {
                output.ime_position
            } else {
                self.ime_position
            },
            cursor_visible: if output.cursor_visible is Some {
                output.cursor_visible
            } else {
                self.cursor_visible
            },
            transparent: match output.background_appearance {
                Some(appearance) => Some(appearance.is_transparent_spec()),
                None => self.transparent,
            },
        }
    }

    /// Adds a root's requests.
    pub fn add_output(&mut self, output: BevyWindowOutput)
        ensures
            *final(self) == old(self).with_output(output),
    {
        if let Some(title) = output.title {
            self.title = Some(title);
        }
        if let Some(size) = output.logical_size {
            self.logical_size = Some(size);
        }
        if let Some(fullscreen) = output.fullscreen {
            self.fullscreen = Some(fullscreen);
        }
        if output.minimize {
            self.minimize = true;
        }
        if output.maximize {
            self.maximize = true;
        }
        if output.activate {
            self.focus = true;
        }
        if let Some(position) = output.ime_position {
            self.ime_position = Some(position);
        }
        if let Some(visible) = output.cursor_visible {
            self.cursor_visible = Some(visible);
        }
        if let Some(appearance) = output.background_appearance {
            self.transparent = Some(appearance.is_transparent());
        }
    }
}

impl Default for HostWindowChanges {
    /// Nothing to change.
    fn default() -> (r: Self)
        ensures
            r == HostWindowChanges::none_spec(),
    {
        HostWindowChanges {
            title: None,
            logical_size: None,
            fullscreen: None,
            minimize: false,
            maximize: false,
            focus: false,
            ime_position: None,
            cursor_visible: None,
            transparent: None,
        }
    }
}

/// The changes from requests added one by one.
pub open spec fn changes_from(outputs: Seq<BevyWindowOutput>) -> HostWindowChanges
    decreases outputs.len(),
{
    if outputs.len() == 0 {
        HostWindowChanges::none_spec()
    } else {
        changes_from(outputs.drop_last()).with_output(outputs.last())
    }
}

/// The adapter once the requests of roots were taken one by one.
pub open spec fn outputs_drained<K: HostTypes>(
    platform: PlatformView<K>,
    ids: Seq<u64>,
) -> PlatformView<K>
    decreases ids.len(),
{
    if ids.len() == 0 {
        platform
    } else {
        let before = outputs_drained(platform, ids.drop_last());
        let id = ids.last();
        if before.windows.contains_key(id) {
            before.with_window(
                id,
                BevyPlatformWindow::<K> {
                    output: BevyWindowOutput::none_spec(),
                    ..before.windows[id]
                },
            )
        } else {
            before
        }
    }
}

/// The requests of roots, taken one by one.
pub open spec fn outputs_taken<K: HostTypes>(
    platform: PlatformView<K>,
    ids: Seq<u64>,
) -> Seq<BevyWindowOutput>
    decreases ids.len(),
{
    if ids.len() == 0 {
        Seq::empty()
    } else {
        let before = outputs_drained(platform, ids.drop_last());
        let id = ids.last();
        outputs_taken(platform, ids.drop_last()).push(
            if before.windows.contains_key(id) {
                before.windows[id].output
            } else {
                BevyWindowOutput::none_spec()
            },
        )
    }
}

/// The requested backgrounds that the host cannot draw.
pub open spec fn materials(outputs: Seq<BevyWindowOutput>) -> Seq<WindowBackgroundAppearance>
    decreases outputs.len(),
{
    if outputs.len() == 0 {
        Seq::empty()
    } else {
        let before = materials(outputs.drop_last());
        match outputs.last().background_appearance {
            Some(appearance) => if appearance.needs_material_spec() {
                before.push(appearance)
            } else {
                before
            },
            None => before,
        }
    }
}

/// Takes the requests of a window's roots, the front root's last, and returns what
/// to change about the window and which backgrounds the host cannot draw.
pub fn take_window_changes<K: HostTypes>(platform: &mut BevyPlatform<K>, ids: &Vec<u64>) -> (r: (
    HostWindowChanges,
    Vec<WindowBackgroundAppearance>,
))
    ensures
        r.0 == changes_from(outputs_taken(old(platform)@, ids@)),
        r.1@ == materials(outputs_taken(old(platform)@, ids@)),
        final(platform)@ == outputs_drained(old(platform)@, ids@),
{
    let ghost before = platform@;
    let mut changes = HostWindowChanges::default();
    let mut unsupported: Vec<WindowBackgroundAppearance> = Vec::new();
    let mut index: usize = 0;
    while index < ids.len()
        invariant
            index <= ids@.len(),
            changes == changes_from(outputs_taken(before, ids@.take(index as int))),
            unsupported@ == materials(outputs_taken(before, ids@.take(index as int))),
            platform@ == outputs_drained(before, ids@.take(index as int)),
        decreases ids@.len() - index,
    {
        let id: u64 = ids[index];
        let output = platform.take_window_output(id);
        proof {
            let next = ids@.take(index + 1);
            assert(next.drop_last() =~= ids@.take(index as int));
            assert(next.last() == id);
            let taken = outputs_taken(before, next);
            assert(taken.drop_last() =~= outputs_taken(before, ids@.take(index as int)));
            assert(taken.last() == output);
        }
        if let Some(appearance) = output.background_appearance {
            if appearance.needs_material() {
                unsupported.push(appearance);
            }
        }
        changes.add_output(output);
        index = index + 1;
    }
    proof {
        assert(ids@.take(ids@.len() as int) =~= ids@);
    }
    (changes, unsupported)
}

/// Requests are taken once: taking them again finds none.
pub proof fn law_requests_are_taken_once<K: HostTypes>(
    platform: PlatformView<K>,
    ids: Seq<u64>,
    id: u64,
)
    requires
        ids.contains(id),
        platform.windows.contains_key(id),
    ensures
        outputs_drained(platform, ids).windows.contains_key(id),
        outputs_drained(platform, ids).windows[id].output == BevyWindowOutput::none_spec(),
    decreases ids.len(),
{
    lemma_drained_windows(platform, ids.drop_last(), id);
    if ids.last() != id {
        let i = choose|i: int| 0 <= i < ids.len() && ids[i] == id;
        assert(ids.drop_last()[i] == id);
        law_requests_are_taken_once(platform, ids.drop_last(), id);
    }
}

proof fn lemma_drained_windows<K: HostTypes>(platform: PlatformView<K>, ids: Seq<u64>, id: u64)
    requires
        platform.windows.contains_key(id),
    ensures
        outputs_drained(platform, ids).windows.contains_key(id),
    decreases ids.len(),
{
    if ids.len() > 0 {
        lemma_drained_windows(platform, ids.drop_last(), id);
    }
}

/// The requests of a front root win over those of the roots behind it, and what it
/// does not ask for stays as they asked.
pub proof fn law_front_request_wins(outputs: Seq<BevyWindowOutput>, front: BevyWindowOutput)
    ensures
        changes_from(outputs.push(front)).title == if front.title is Some {
            front.title
        } else {
            changes_from(outputs).title
        },
        changes_from(outputs.push(front)).logical_size == if front.logical_size is Some {
            front.logical_size
        } else {
            changes_from(outputs).logical_size
        },
        changes_from(outputs.push(front)).fullscreen == if front.fullscreen is Some {
            front.fullscreen
        } else {
            changes_from(outputs).fullscreen
        },
        changes_from(outputs.push(front)).ime_position == if front.ime_position is Some {
            front.ime_position
        } else {
            changes_from(outputs).ime_position
        },
        changes_from(outputs.push(front)).cursor_visible == if front.cursor_visible is Some {
            front.cursor_visible
        } else {
            changes_from(outputs).cursor_visible
        },
        front.background_appearance matches Some(appearance) ==> changes_from(
            outputs.push(front),
        ).transparent == Some(appearance.is_transparent_spec()),
        front.background_appearance is None ==> changes_from(outputs.push(front)).transparent
            == changes_from(outputs).transparent,
        !front.minimize ==> changes_from(outputs.push(front)).minimize == changes_from(
            outputs,
        ).minimize,
        !front.maximize ==> changes_from(outputs.push(front)).maximize == changes_from(
            outputs,
        ).maximize,
        !front.activate ==> changes_from(outputs.push(front)).focus == changes_from(outputs).focus,
{
    assert(outputs.push(front).drop_last() =~= outputs);
}

/// Asking the host to minimize, maximize or focus a window is not undone by other
/// roots of the window.
pub proof fn law_one_time_requests_accumulate(outputs: Seq<BevyWindowOutput>, i: int)
    requires
        0 <= i < outputs.len(),
    ensures
        outputs[i].minimize ==> changes_from(outputs).minimize,
        outputs[i].maximize ==> changes_from(outputs).maximize,
        outputs[i].activate ==> changes_from(outputs).focus,
    decreases outputs.len(),
{
    if i < outputs.len() - 1 {
        assert(outputs.drop_last()[i] == outputs[i]);
        law_one_time_requests_accumulate(outputs.drop_last(), i);
    }
}

/// Whether no two cameras show the same root.
pub open spec fn distinct_roots(cameras: Seq<CameraBinding>) -> bool {
    forall|i: int, j: int|
        0 <= i < j < cameras.len() ==> (#[trigger] cameras[i]).id != (#[trigger] cameras[j]).id
}

/// Whether the windows show exactly the roots bound to them.
pub open spec fn windows_match<K: HostTypes>(
    runtime: RuntimeView<K>,
    cameras: Seq<CameraBinding>,
) -> bool {
    &&& forall|window: u64, id: u64| #[trigger]
        runtime.mapped(window).contains(id) <==> (runtime.contexts.contains_key(id) && exists|
            i: int,
        |
            0 <= i < cameras.len() && (#[trigger] cameras[i]).id == id && cameras[i].binding.window
                == Some(window))
    &&& forall|i: int|
        0 <= i < cameras.len() && runtime.contexts.contains_key((#[trigger] cameras[i]).id)
            ==> runtime.contexts[cameras[i].id] == cameras[i].binding
}

proof fn lemma_bound_all<K: HostTypes>(start: RuntimeView<K>, cameras: Seq<CameraBinding>)
    requires
        start.window_contexts == Map::<u64, Seq<u64>>::empty(),
        distinct_roots(cameras),
    ensures
        start.bound_all(cameras).contexts.dom() == start.contexts.dom(),
        windows_match(start.bound_all(cameras), cameras),
    decreases cameras.len(),
{
    let after = start.bound_all(cameras);
    if cameras.len() == 0 {
        assert forall|window: u64, id: u64| !(#[trigger] after.mapped(window).contains(id)) by {}
    } else {
        let rest = cameras.drop_last();
        let last = cameras.last();
        let before = start.bound_all(rest);
        assert(forall|i: int| 0 <= i < rest.len() ==> rest[i] == #[trigger] cameras[i]);
        assert(distinct_roots(rest));
        lemma_bound_all(start, rest);
        assert(cameras[cameras.len() - 1] == last);
        assert(after == before.bound(last));
        assert(after.contexts.dom() =~= start.contexts.dom());
        assert forall|window: u64, id: u64| #[trigger]
            after.mapped(window).contains(id) <==> (after.contexts.contains_key(id) && exists|
                i: int,
            |
                0 <= i < cameras.len() && (#[trigger] cameras[i]).id == id
                    && cameras[i].binding.window == Some(window)) by {
            let was = before.mapped(window);
            let now = after.mapped(window);
            let pushed = before.contexts.contains_key(last.id) && last.binding.window == Some(
                window,
            );
            assert(now == (if pushed {
                was.push(last.id)
            } else {
                was
            }));
            if pushed {
                assert(now[was.len() as int] == last.id);
            }
            if was.contains(id) {
                let k = choose|k: int| 0 <= k < was.len() && was[k] == id;
                assert(now[k] == id);
            }
            if now.contains(id) {
                let k = choose|k: int| 0 <= k < now.len() && now[k] == id;
                if k < was.len() {
                    assert(was[k] == id);
                }
            }
            assert(was.contains(id) <==> (before.contexts.contains_key(id) && exists|i: int|
                0 <= i < rest.len() && (#[trigger] rest[i]).id == id && rest[i].binding.window
                    == Some(window)));
            if exists|i: int|
                0 <= i < rest.len() && (#[trigger] rest[i]).id == id && rest[i].binding.window
                    == Some(window) {
                let i = choose|i: int|
                    0 <= i < rest.len() && (#[trigger] rest[i]).id == id && rest[i].binding.window
                        == Some(window);
                assert(cameras[i].id == id);
            }
            if exists|i: int|
                0 <= i < cameras.len() && (#[trigger] cameras[i]).id == id
                    && cameras[i].binding.window == Some(window) {
                let i = choose|i: int|
                    0 <= i < cameras.len() && (#[trigger] cameras[i]).id == id
                        && cameras[i].binding.window == Some(window);
                if i < rest.len() {
                    assert(rest[i].id == id);
                }
            }
        }
        assert forall|i: int|
            0 <= i < cameras.len() && after.contexts.contains_key(
                (#[trigger] cameras[i]).id,
            ) implies after.contexts[cameras[i].id] == cameras[i].binding by {
            if i < rest.len() {
                assert(rest[i] == cameras[i]);
                assert(cameras[i].id != cameras[cameras.len() - 1].id);
            }
        }
    }
}

/// The existing roots of the cameras that draw to a window, in the order of the
/// cameras.
pub open spec fn roots_in<K: HostTypes>(
    runtime: RuntimeView<K>,
    cameras: Seq<CameraBinding>,
    window: u64,
) -> Seq<u64>
    decreases cameras.len(),
{
    if cameras.len() == 0 {
        Seq::empty()
    } else {
        let rest = roots_in(runtime, cameras.drop_last(), window);
        let last = cameras.last();
        if runtime.contexts.contains_key(last.id) && last.binding.window == Some(window) {
            rest.push(last.id)
        } else {
            rest
        }
    }
}

proof fn lemma_bound_in_order<K: HostTypes>(
    start: RuntimeView<K>,
    cameras: Seq<CameraBinding>,
    window: u64,
)
    requires
        start.window_contexts == Map::<u64, Seq<u64>>::empty(),
        distinct_roots(cameras),
    ensures
        start.bound_all(cameras).contexts.dom() == start.contexts.dom(),
        start.bound_all(cameras).mapped(window) == roots_in(start, cameras, window),
        roots_in(start, cameras, window).no_duplicates(),
        forall|id: u64| #[trigger]
            roots_in(start, cameras, window).contains(id) ==> exists|i: int|
                0 <= i < cameras.len() && (#[trigger] cameras[i]).id == id,
    decreases cameras.len(),
{
    if cameras.len() > 0 {
        let rest = cameras.drop_last();
        let last = cameras.last();
        let n = cameras.len() - 1;
        assert(forall|i: int| 0 <= i < rest.len() ==> rest[i] == #[trigger] cameras[i]);
        assert(distinct_roots(rest));
        lemma_bound_in_order(start, rest, window);
        let before = start.bound_all(rest);
        let after = start.bound_all(cameras);
        assert(after == before.bound(last));
        assert(after.contexts.dom() =~= start.contexts.dom());
        assert(cameras[n] == last);
        let was = roots_in(start, rest, window);
        let now = roots_in(start, cameras, window);
        if was.contains(last.id) {
            let i = choose|i: int| 0 <= i < rest.len() && (#[trigger] rest[i]).id == last.id;
            assert(cameras[i].id != cameras[n].id);
        }
        assert forall|i: int, j: int| 0 <= i < j < now.len() implies now[i] != now[j] by {
            if j == was.len() {
                assert(was.contains(was[i]));
            }
        }
        assert forall|id: u64| #[trigger] now.contains(id) implies exists|i: int|
            0 <= i < cameras.len() && (#[trigger] cameras[i]).id == id by {
            let k = choose|k: int| 0 <= k < now.len() && now[k] == id;
            if k < was.len() {
                assert(was[k] == id);
                assert(was.contains(id));
                let i = choose|i: int| 0 <= i < rest.len() && (#[trigger] rest[i]).id == id;
                assert(cameras[i].id == id);
            } else {
                assert(cameras[n].id == id);
            }
        }
    }
}

/// After a synchronization a window shows exactly the existing roots of the cameras
/// that draw to it, each once; each root is bound as its camera says; and the roots of
/// a window are ordered by rank, those of the same rank in the order of the cameras.
pub proof fn law_sync_matches_cameras<K: HostTypes>(
    runtime: RuntimeView<K>,
    cameras: Seq<CameraBinding>,
    window: u64,
    kept: int,
)
    requires
        distinct_roots(cameras),
    ensures
        ({
            let after = runtime.unmapped().bound_all(cameras).ranked();
            &&& after.contexts.dom() == runtime.contexts.dom()
            &&& windows_match(after, cameras)
            &&& ranks_ascend(after.mapped(window), after.rank())
            &&& after.mapped(window).no_duplicates()
            &&& after.mapped(window).filter(of_rank(after.rank(), kept)) == roots_in(
                runtime,
                cameras,
                window,
            ).filter(of_rank(after.rank(), kept))
        }),
{
    let bound = runtime.unmapped().bound_all(cameras);
    let after = bound.ranked();
    lemma_bound_all(runtime.unmapped(), cameras);
    assert(after.rank() == bound.rank());
    assert forall|w: u64, id: u64| after.mapped(w).contains(id) <==> bound.mapped(w).contains(id) by {
        if bound.window_contexts.contains_key(w) {
            let ids = bound.window_contexts[w];
            let sorted = sorted_by_rank(ids, bound.rank());
            law_sort_is_stable(ids, bound.rank(), 0);
            ids.to_multiset_ensures();
            sorted.to_multiset_ensures();
            assert(sorted.to_multiset().count(id) == ids.to_multiset().count(id));
        }
    }
    lemma_bound_in_order(runtime.unmapped(), cameras, window);
    lemma_roots_in_unmapped(runtime, cameras, window);
    if bound.window_contexts.contains_key(window) {
        let ids = bound.window_contexts[window];
        law_sort_is_stable(ids, bound.rank(), kept);
        lemma_same_elements_no_duplicates(ids, sorted_by_rank(ids, bound.rank()));
    }
    assert forall|w: u64, id: u64| #[trigger]
        after.mapped(w).contains(id) <==> (after.contexts.contains_key(id) && exists|i: int|
            0 <= i < cameras.len() && (#[trigger] cameras[i]).id == id && cameras[i].binding.window
                == Some(w)) by {
        assert(bound.mapped(w).contains(id) <==> (bound.contexts.contains_key(id) && exists|
            i: int,
        |
            0 <= i < cameras.len() && (#[trigger] cameras[i]).id == id && cameras[i].binding.window
                == Some(w)));
    }
}

proof fn lemma_roots_in_unmapped<K: HostTypes>(
    runtime: RuntimeView<K>,
    cameras: Seq<CameraBinding>,
    window: u64,
)
    ensures
        roots_in(runtime.unmapped(), cameras, window) == roots_in(runtime, cameras, window),
    decreases cameras.len(),
{
    if cameras.len() > 0 {
        lemma_roots_in_unmapped(runtime, cameras.drop_last(), window);
    }
}

proof fn lemma_same_elements_no_duplicates(a: Seq<u64>, b: Seq<u64>)
    requires
        a.no_duplicates(),
        a.to_multiset() == b.to_multiset(),
    ensures
        b.no_duplicates(),
{
    a.lemma_multiset_has_no_duplicates();
    b.lemma_multiset_has_no_duplicates_conv();
}

proof fn lemma_filter_keeps_ranks(
    ids: Seq<u64>,
    rank: spec_fn(u64) -> int,
    keep: spec_fn(u64) -> bool,
)
    requires
        ranks_ascend(ids, rank),
    ensures
        ranks_ascend(ids.filter(keep), rank),
    decreases ids.len(),
{
    reveal(Seq::filter);
    if ids.len() > 0 {
        let rest = ids.drop_last();
        assert forall|i: int, j: int| 0 <= i <= j < rest.len() implies rank(rest[i]) <= rank(
            rest[j],
        ) by {
            assert(rest[i] == ids[i] && rest[j] == ids[j]);
        }
        lemma_filter_keeps_ranks(rest, rank, keep);
        let kept = rest.filter(keep);
        let all = ids.filter(keep);
        assert forall|i: int, j: int| 0 <= i <= j < all.len() implies rank(all[i]) <= rank(
            all[j],
        ) by {
            if j == kept.len() && i < j {
                assert(kept.contains(kept[i]));
                rest.lemma_filter_contains_rev(keep, kept[i]);
                let k = choose|k: int| 0 <= k < rest.len() && rest[k] == kept[i];
                assert(rank(ids[k]) <= rank(ids[ids.len() - 1]));
            }
        }
    }
}

/// After a synchronization the root of the highest rank under the pointer hears of
/// pointer input last, and gets the keyboard with a press.
pub proof fn law_front_root_is_last<K: HostTypes>(
    runtime: RuntimeView<K>,
    cameras: Seq<CameraBinding>,
    window: u64,
    position: Option<Point>,
)
    requires
        distinct_roots(cameras),
    ensures
        ({
            let after = runtime.unmapped().bound_all(cameras).ranked();
            let ids = after.ids_at(window, position);
            &&& ranks_ascend(ids, after.rank())
            &&& ids.len() > 0 ==> after.pressed(
                window,
                ButtonState::Pressed,
                ids,
            ).focused_contexts[window] == ids.last()
        }),
{
    let after = runtime.unmapped().bound_all(cameras).ranked();
    law_sync_matches_cameras(runtime, cameras, window, 0);
    lemma_filter_keeps_ranks(
        after.mapped(window),
        after.rank(),
        |id: u64| after.covers(id, after.pointer_at(window, position)),
    );
}

proof fn lemma_offscreen_is_unmapped<K: HostTypes>(
    after: RuntimeView<K>,
    cameras: Seq<CameraBinding>,
    i: int,
    window: u64,
)
    requires
        distinct_roots(cameras),
        windows_match(after, cameras),
        0 <= i < cameras.len(),
        cameras[i].binding.window is None,
    ensures
        !after.mapped(window).contains(cameras[i].id),
{
    let id = cameras[i].id;
    if after.mapped(window).contains(id) {
        let j = choose|j: int|
            0 <= j < cameras.len() && (#[trigger] cameras[j]).id == id && cameras[j].binding.window
                == Some(window);
        if i < j {
            assert(cameras[i].id != cameras[j].id);
        } else if j < i {
            assert(cameras[j].id != cameras[i].id);
        }
    }
}

/// After a synchronization a root that is not shown in a window receives neither
/// pointer nor keyboard input of any window, and no pinch.
pub proof fn law_offscreen_roots_get_no_input<K: HostTypes>(
    runtime: RuntimeView<K>,
    cameras: Seq<CameraBinding>,
    i: int,
    window: u64,
    position: Option<Point>,
    ids: Seq<u64>,
)
    requires
        distinct_roots(cameras),
        0 <= i < cameras.len(),
        cameras[i].binding.window is None,
    ensures
        ({
            let after = runtime.unmapped().bound_all(cameras).ranked();
            &&& !after.ids_at(window, position).contains(cameras[i].id)
            &&& !after.keyboard_ids(window).contains(cameras[i].id)
            &&& after.are_pinch_targets(ids) ==> !ids.contains(cameras[i].id)
        }),
{
    let after = runtime.unmapped().bound_all(cameras).ranked();
    let id = cameras[i].id;
    law_sync_matches_cameras(runtime, cameras, window, 0);
    lemma_offscreen_is_unmapped(after, cameras, i, window);
    crate::routing::law_roots_under_pointer(after, window, position, id);
    if after.keyboard_ids(window).contains(id) {
        crate::runtime::law_keyboard_target_is_shown(after, window, id);
    }
    if after.are_pinch_targets(ids) && ids.contains(id) {
        crate::runtime::law_pinch_targets_are_shown(after, ids, id);
        let shown = choose|shown: u64| #[trigger] after.shows(shown, id);
        if after.mapped(shown).contains(id) {
            lemma_offscreen_is_unmapped(after, cameras, i, shown);
        }
    }
}

impl<K: HostTypes> StateView<K> {
    /// The state once a synchronization ended, where `live` are the roots on cameras:
    /// a running application builds no others any more.
    pub open spec fn synced(self, live: Set<u64>) -> StateView<K> {
        if self.runtime is Some {
            StateView { root_factories: self.root_factories.restrict(live), ..self }
        } else {
            self
        }
    }
}

impl<K: HostTypes> RuntimeView<K> {
    /// The runtime once roots were closed one after another.
    pub open spec fn closed_all(self, ids: Seq<u64>) -> RuntimeView<K>
        decreases ids.len(),
    {
        if ids.len() == 0 {
            self
        } else {
            self.closed_all(ids.drop_last()).closed(ids.last())
        }
    }
}

proof fn lemma_closed_all<K: HostTypes>(runtime: RuntimeView<K>, ids: Seq<u64>, id: u64)
    ensures
        runtime.closed_all(ids).windows.contains_key(id) <==> runtime.windows.contains_key(id)
            && !ids.contains(id),
        runtime.closed_all(ids).contexts.contains_key(id) <==> runtime.contexts.contains_key(id)
            && !ids.contains(id),
        runtime.closed_all(ids).windows.contains_key(id) ==> runtime.closed_all(ids).windows[id]
            == runtime.windows[id],
    decreases ids.len(),
{
    if ids.len() > 0 {
        let rest = ids.drop_last();
        lemma_closed_all(runtime, rest, id);
        assert(ids[ids.len() - 1] == ids.last());
        if rest.contains(id) {
            let i = choose|i: int| 0 <= i < rest.len() && rest[i] == id;
            assert(ids[i] == id);
        }
        if ids.contains(id) {
            let i = choose|i: int| 0 <= i < ids.len() && ids[i] == id;
            if i < rest.len() {
                assert(rest[i] == id);
            }
        }
    }
}

proof fn lemma_bound_keeps_roots<K: HostTypes>(
    start: RuntimeView<K>,
    cameras: Seq<CameraBinding>,
)
    ensures
        start.bound_all(cameras).windows == start.windows,
        start.bound_all(cameras).contexts.dom() == start.contexts.dom(),
    decreases cameras.len(),
{
    if cameras.len() > 0 {
        lemma_bound_keeps_roots(start, cameras.drop_last());
        assert(start.bound_all(cameras).contexts.dom() =~= start.contexts.dom());
    }
}

/// A synchronization that closes the roots on no camera is the end of every root that
/// is on none, whether it was ever materialized or not: its handle leads nowhere and
/// nothing builds it any more, not even where its context comes back on a camera. The
/// roots on cameras stay open.
pub proof fn law_removed_root_stays_gone<K: HostTypes>(
    state: StateView<K>,
    before: GpuiRuntime<K>,
    after: GpuiRuntime<K>,
    live: Set<u64>,
    stale: Seq<u64>,
    cameras: Seq<CameraBinding>,
    id: u64,
    active: Set<u64>,
)
    requires
        before@.windows_have_contexts(),
        lists(stale, before@.contexts.dom().difference(live)),
        after@ == before@.unmapped().closed_all(stale).bound_all(cameras).ranked(),
        state.runtime == Some(after),
    ensures
        !live.contains(id) ==> {
            &&& !state.synced(live).root_factories.contains_key(id)
            &&& state.synced(live).lookup(id) == Err::<K::Handle, ContextError>(
                ContextError::StaleOrPending,
            )
            &&& !state.synced(live).unmaterialized(active).contains(id)
        },
        live.contains(id) && before@.windows.contains_key(id) ==> state.synced(live).lookup(id)
            == Ok::<K::Handle, ContextError>(before@.windows[id]),
        live.contains(id) && state.root_factories.contains_key(id) ==> state.synced(
            live,
        ).root_factories.contains_key(id),
{
    let closed = before@.unmapped().closed_all(stale);
    lemma_closed_all(before@.unmapped(), stale, id);
    lemma_bound_keeps_roots(closed, cameras);
    assert(after@.windows == closed.windows);
    assert(stale.contains(id) <==> stale.to_set().contains(id));
    assert(before@.windows.dom().subset_of(before@.contexts.dom()));
    if before@.windows.contains_key(id) {
        assert(before@.windows.dom().contains(id));
        assert(before@.contexts.dom().contains(id));
    }
}

/// A root shown in a window is active exactly while that window has the host's focus
/// and the application is in the foreground; one shown in no window always is.
pub proof fn law_activity_needs_focus_and_foreground<K: HostTypes>(
    background: RuntimeView<K>,
    foreground: RuntimeView<K>,
)
    requires
        !background.application_active,
        foreground.application_active,
    ensures
        foreground.active_in(Some(true)),
        !foreground.active_in(Some(false)),
        !background.active_in(Some(true)),
        !background.active_in(Some(false)),
        foreground.active_in(None) && background.active_in(None),
{
}

/// A camera draws to the window it names, a camera for the primary window to whichever
/// window is the primary one, and an offscreen camera to none.
pub proof fn law_targets_name_their_window(
    target: HostTarget,
    primary: Option<u64>,
    window: u64,
)
    ensures
        target.window_spec(primary) == Some(window) <==> target == HostTarget::Window(window) || (
        target is PrimaryWindow && primary == Some(window)),
        target is Offscreen ==> target.window_spec(primary) is None,
{
}

/// The camera that gets a root is active, draws to the primary window, and no other
/// active camera there has a higher order, nor one behind it in the list the same.
pub proof fn law_frontmost_camera_has_highest_order(
    cameras: Seq<HostCamera>,
    window: u64,
    index: int,
    other: int,
)
    requires
        is_frontmost(cameras, Some(window), index),
        0 <= other < cameras.len(),
        cameras[other].is_active,
        cameras[other].target is PrimaryWindow || cameras[other].target == HostTarget::Window(
            window,
        ),
    ensures
        cameras[index].is_active,
        cameras[index].target is PrimaryWindow || cameras[index].target == HostTarget::Window(
            window,
        ),
        cameras[other].order <= cameras[index].order,
        other > index ==> cameras[other].order < cameras[index].order,
{
    assert(cameras[other].on_primary(Some(window)));
}

/// Without a primary window no camera gets a root of its own accord, and with one
/// exactly the active cameras that draw to it stand to get one: one of them with a
/// root keeps the others from it.
pub proof fn law_only_cameras_on_primary_are_attached(
    cameras: Seq<HostCamera>,
    primary: Option<u64>,
)
    ensures
        primary is None ==> !has_candidate(cameras, primary) && !has_attached(cameras, primary),
        primary matches Some(window) ==> (has_candidate(cameras, primary) <==> exists|j: int|
            0 <= j < cameras.len() && (#[trigger] cameras[j]).is_active && (
            cameras[j].target is PrimaryWindow || cameras[j].target == HostTarget::Window(window))),
        primary matches Some(window) ==> (has_attached(cameras, primary) <==> exists|j: int|
            0 <= j < cameras.len() && (#[trigger] cameras[j]).is_active && cameras[j].has_context
                && (cameras[j].target is PrimaryWindow || cameras[j].target == HostTarget::Window(
                window,
            ))),
{
    if let Some(window) = primary {
        if has_candidate(cameras, primary) {
            let j = choose|j: int|
                0 <= j < cameras.len() && (#[trigger] cameras[j]).on_primary(primary);
            assert(cameras[j].is_active);
        }
        if has_attached(cameras, primary) {
            let j = choose|j: int|
                0 <= j < cameras.len() && (#[trigger] cameras[j]).on_primary(primary)
                    && cameras[j].has_context;
            assert(cameras[j].is_active);
        }
        assert(forall|j: int|
            0 <= j < cameras.len() ==> ((#[trigger] cameras[j]).on_primary(primary) <==> (
            cameras[j].is_active && (cameras[j].target is PrimaryWindow || cameras[j].target
                == HostTarget::Window(window)))));
    }
}

/// A camera is stopped with closing windows exactly where it draws to one of them, and
/// is an orphan exactly where it draws to a window that is not there any more. An
/// offscreen camera is neither.
pub proof fn law_cameras_follow_their_window(
    cameras: Seq<ContextCamera>,
    windows: Set<u64>,
    primary: Option<u64>,
    camera: ContextCamera,
)
    ensures
        cameras.filter(drawing(primary, windows, true)).contains(camera) <==> cameras.contains(
            camera,
        ) && exists|window: u64| #[trigger]
            windows.contains(window) && (camera.target == HostTarget::Window(window) || (
            camera.target is PrimaryWindow && primary == Some(window))),
        cameras.filter(drawing(primary, windows, false)).contains(camera) <==> cameras.contains(
            camera,
        ) && (match camera.target {
            HostTarget::Window(window) => !windows.contains(window),
            HostTarget::PrimaryWindow => primary matches Some(window) && !windows.contains(window),
            HostTarget::Offscreen => false,
        }),
{
    lemma_filter_contains(cameras, drawing(primary, windows, true), camera);
    lemma_filter_contains(cameras, drawing(primary, windows, false), camera);
    if let Some(window) = camera.target.window_spec(primary) {
        assert(windows.contains(window) == windows.contains(window));
    }
}

proof fn lemma_filter_contains<A>(items: Seq<A>, keep: spec_fn(A) -> bool, item: A)
    ensures
        items.filter(keep).contains(item) <==> items.contains(item) && keep(item),
{
    broadcast use vstd::seq_lib::group_filter_ensures;

    let kept = items.filter(keep);
    if kept.contains(item) {
        let i = choose|i: int| 0 <= i < kept.len() && kept[i] == item;
        assert(keep(kept[i]));
        items.lemma_filter_contains_rev(keep, item);
    }
    if items.contains(item) && keep(item) {
        let i = choose|i: int| 0 <= i < items.len() && items[i] == item;
        assert(kept.contains(items[i]));
    }
}

/// After a synchronization a root whose camera has a higher order stands in front of
/// every root of the window whose camera has a lower one.
pub proof fn law_higher_order_is_in_front<K: HostTypes>(
    runtime: RuntimeView<K>,
    cameras: Seq<CameraBinding>,
    window: u64,
    a: int,
    b: int,
)
    requires
        distinct_roots(cameras),
        0 <= a < cameras.len(),
        0 <= b < cameras.len(),
        cameras[a].binding.window == Some(window),
        cameras[b].binding.window == Some(window),
        runtime.contexts.contains_key(cameras[a].id),
        runtime.contexts.contains_key(cameras[b].id),
        cameras[a].binding.order < cameras[b].binding.order,
    ensures
        ({
            let shown = runtime.unmapped().bound_all(cameras).ranked().mapped(window);
            exists|i: int, j: int|
                0 <= i < j < shown.len() && #[trigger] shown[i] == cameras[a].id
                    && #[trigger] shown[j] == cameras[b].id
        }),
{
    let after = runtime.unmapped().bound_all(cameras).ranked();
    let shown = after.mapped(window);
    law_sync_matches_cameras(runtime, cameras, window, 0);
    assert(after.contexts.dom().contains(cameras[a].id));
    assert(after.contexts.dom().contains(cameras[b].id));
    assert(shown.contains(cameras[a].id));
    assert(shown.contains(cameras[b].id));
    let i = choose|i: int| 0 <= i < shown.len() && shown[i] == cameras[a].id;
    let j = choose|j: int| 0 <= j < shown.len() && shown[j] == cameras[b].id;
    assert((after.rank())(shown[i]) == cameras[a].binding.order);
    assert((after.rank())(shown[j]) == cameras[b].binding.order);
    if j <= i {
        assert((after.rank())(shown[j]) <= (after.rank())(shown[i]));
    }
}

/// A host window is changed only as some root asked: what no root asks for is left as
/// it is.
pub proof fn law_changes_are_asked_for(outputs: Seq<BevyWindowOutput>)
    ensures
        changes_from(outputs).minimize ==> exists|i: int|
            0 <= i < outputs.len() && (#[trigger] outputs[i]).minimize,
        changes_from(outputs).maximize ==> exists|i: int|
            0 <= i < outputs.len() && (#[trigger] outputs[i]).maximize,
        changes_from(outputs).focus ==> exists|i: int|
            0 <= i < outputs.len() && (#[trigger] outputs[i]).activate,
        changes_from(outputs).title is Some ==> exists|i: int|
            0 <= i < outputs.len() && (#[trigger] outputs[i]).title == changes_from(outputs).title,
        changes_from(outputs).logical_size is Some ==> exists|i: int|
            0 <= i < outputs.len() && (#[trigger] outputs[i]).logical_size == changes_from(
                outputs,
            ).logical_size,
        changes_from(outputs).fullscreen is Some ==> exists|i: int|
            0 <= i < outputs.len() && (#[trigger] outputs[i]).fullscreen == changes_from(
                outputs,
            ).fullscreen,
        changes_from(outputs).ime_position is Some ==> exists|i: int|
            0 <= i < outputs.len() && (#[trigger] outputs[i]).ime_position == changes_from(
                outputs,
            ).ime_position,
        changes_from(outputs).cursor_visible is Some ==> exists|i: int|
            0 <= i < outputs.len() && (#[trigger] outputs[i]).cursor_visible == changes_from(
                outputs,
            ).cursor_visible,
        changes_from(outputs).transparent matches Some(transparent) ==> exists|i: int|
            0 <= i < outputs.len() && (#[trigger] outputs[i]).background_appearance is Some
                && transparent == !(outputs[i].background_appearance->0 is Opaque),
    decreases outputs.len(),
{
    if outputs.len() > 0 {
        let rest = outputs.drop_last();
        law_changes_are_asked_for(rest);
        let n = outputs.len() - 1;
        assert(outputs[n] == outputs.last());
        assert(forall|i: int| 0 <= i < rest.len() ==> #[trigger] rest[i] == outputs[i]);
    }
}

/// The backgrounds reported as not drawable are exactly the requested blurred and
/// material ones, in the order they were requested.
pub proof fn law_materials_are_reported(
    outputs: Seq<BevyWindowOutput>,
    output: BevyWindowOutput,
)
    ensures
        materials(outputs.push(output)) == if output.background_appearance matches Some(appearance)
            && !(appearance is Opaque) && !(appearance is Transparent) {
            materials(outputs).push(output.background_appearance->0)
        } else {
            materials(outputs)
        },
        materials(outputs).len() <= outputs.len(),
    decreases outputs.len(),
{
    assert(outputs.push(output).drop_last() =~= outputs);
    if outputs.len() > 0 {
        law_materials_are_reported(outputs.drop_last(), output);
    }
}

/// A running application keeps the builders of exactly the roots that are on a camera;
/// before it runs all builders stay.
pub proof fn law_builders_live_with_their_cameras<K: HostTypes>(
    state: StateView<K>,
    live: Set<u64>,
    id: u64,
)
    ensures
        state.runtime is None ==> state.synced(live) == state,
        state.runtime is Some ==> (state.synced(live).root_factories.contains_key(id)
            <==> state.root_factories.contains_key(id) && live.contains(id)),
        state.synced(live).root_factories.contains_key(id) ==> state.synced(live).root_factories[id]
            == state.root_factories[id],
        state.synced(live).runtime == state.runtime,
{
}

/// A root is told that it is active where the window it is shown in has the host's
/// focus while the application is in the foreground, and where it is shown in none.
pub proof fn law_roots_are_told_their_activity<K: HostTypes>(
    runtime: GpuiRuntime<K>,
    focused: Option<bool>,
    active: bool,
)
    requires
        call_ensures(GpuiRuntime::<K>::context_active, (&runtime, focused), active),
    ensures
        focused is None ==> active,
        focused == Some(false) ==> !active,
        focused == Some(true) ==> active == runtime.application_active,
{
}

/// A synchronization starts with no root shown anywhere and finds exactly the roots that
/// are on no camera any more; no root is forgotten by that alone.
pub proof fn law_roots_without_camera_are_found<K: HostTypes>(
    runtime: &mut GpuiRuntime<K>,
    live: Vec<u64>,
    stale: Vec<u64>,
    id: u64,
    window: u64,
)
    requires
        call_ensures(GpuiRuntime::<K>::begin_sync, (runtime, &live), stale),
    ensures
        stale@.contains(id) <==> old(runtime)@.contexts.contains_key(id) && !live@.contains(id),
        stale@.no_duplicates(),
        final(runtime)@.mapped(window).len() == 0,
        final(runtime)@.contexts == old(runtime)@.contexts,
        final(runtime)@.windows == old(runtime)@.windows,
        final(runtime)@.focused_contexts == old(runtime)@.focused_contexts,
{
    assert(stale@.contains(id) <==> stale@.to_set().contains(id));
    assert(live@.contains(id) <==> live@.to_set().contains(id));
}

/// A camera on the primary window gets a root of its own accord exactly where that is
/// wanted, some active camera draws there and none of them has a root; it is then one
/// of those with the highest order.
pub proof fn law_auto_attach_picks_the_front_camera(
    enabled: bool,
    cameras: Vec<HostCamera>,
    window: u64,
    r: Option<u64>,
    other: int,
)
    requires
        call_ensures(auto_attach_primary, (enabled, &cameras, Some(window)), r),
        0 <= other < cameras@.len(),
        cameras@[other].is_active,
        cameras@[other].target is PrimaryWindow || cameras@[other].target == HostTarget::Window(
            window,
        ),
    ensures
        !enabled ==> r is None,
        cameras@[other].has_context ==> r is None,
        r matches Some(entity) ==> exists|i: int|
            0 <= i < cameras@.len() && (#[trigger] cameras@[i]).entity == entity
                && cameras@[i].is_active && !cameras@[i].has_context && cameras@[other].order
                <= cameras@[i].order,
        enabled && (forall|j: int| 0 <= j < cameras@.len() ==> !(#[trigger] cameras@[j]).has_context)
            ==> r is Some,
{
    assert(cameras@[other].on_primary(Some(window)));
    if let Some(entity) = r {
        let i = choose|i: int| #[trigger]
            is_frontmost(cameras@, Some(window), i) && cameras@[i].entity == entity;
        law_frontmost_camera_has_highest_order(cameras@, window, i, other);
        assert(cameras@[i].on_primary(Some(window)));
        assert(!cameras@[i].has_context);
    }
}

/// A synchronization ends with as many roots counted as the running application has, and
/// none without one; no other count changes.
pub proof fn law_status_counts_existing_roots<K: HostTypes>(
    state: &mut GpuiRuntimeState<K>,
    status: &mut GpuiRuntimeStatus,
    live: Vec<u64>,
)
    requires
        call_ensures(finish_sync::<K>, (state, status, &live), ()),
    ensures
        old(state)@.runtime is None ==> final(status).roots == 0,
        old(state)@.runtime matches Some(runtime) ==> final(status).roots == runtime@.contexts.len(),
        final(status).scenes_built == old(status).scenes_built && final(status).recoveries == old(
            status,
        ).recoveries && final(status).ready == old(status).ready,
{
}

/// A root whose window is gone is not built any more and counts as gone; the others are
/// still built.
pub proof fn law_orphans_are_not_built_again<K: HostTypes>(
    state: &mut GpuiRuntimeState<K>,
    status: &mut GpuiRuntimeStatus,
    id: u64,
    other: u64,
)
    requires
        call_ensures(cleanup_orphaned_window_context::<K>, (state, status, id), ()),
    ensures
        !final(state)@.root_factories.contains_key(id),
        other != id ==> (final(state)@.root_factories.contains_key(other) <==> old(
            state,
        )@.root_factories.contains_key(other)),
        old(status).roots > 0 ==> final(status).roots == old(status).roots - 1,
        old(status).roots == 0 ==> final(status).roots == 0,
{
}

} // verus!
