//! Drawing retained scenes into the host's render targets.
use bevy_render::render_resource::{TextureFormat, TextureUsages};
use std::collections::HashSet;
use std::sync::Arc;
use vstd::prelude::*;

verus! {

broadcast use vstd::std_specs::hash::group_hash_axioms;

/// A texture format of the host's renderer, compared but not looked into.
#[verifier::external_type_specification]
#[verifier::external_body]
pub struct ExTextureFormat(TextureFormat);

/// `TextureFormat::eq`, the equality derived for the enum, holds for equal formats
/// and for no others.
#[verifier::external_body]
fn same_format(a: &TextureFormat, b: &TextureFormat) -> (r: bool)
    ensures
        r == (*a == *b),
{
    a == b
}

/// `TextureUsages::contains` tells whether one set of usages includes another,
/// both given by their bits.
#[verifier::external_body]
fn usages_contain(allowed: u32, required: u32) -> (r: bool)
    ensures
        r == (allowed & required == required),
{
    TextureUsages::from_bits_retain(allowed).contains(TextureUsages::from_bits_retain(required))
}

/// The usages a color atlas needs: as a copy destination and in a texture binding.
pub const ATLAS_USAGES: u32 = 6;

/// A format for the color atlas.
#[derive(Clone, Copy, Debug, PartialEq, Eq, Structural)]
pub enum AtlasFormat {
    Bgra8Unorm,
    Rgba8Unorm,
}

/// The format of the color atlas: the first of the two that the device allows for
/// it, given the usages it allows for each.
pub fn atlas_format(bgra_usages: u32, rgba_usages: u32) -> (r: Option<AtlasFormat>)
    ensures
        r == (if bgra_usages & ATLAS_USAGES == ATLAS_USAGES {
            Some(AtlasFormat::Bgra8Unorm)
        } else if rgba_usages & ATLAS_USAGES == ATLAS_USAGES {
            Some(AtlasFormat::Rgba8Unorm)
        } else {
            None
        }),
{
    if usages_contain(bgra_usages, ATLAS_USAGES) {
        Some(AtlasFormat::Bgra8Unorm)
    } else if usages_contain(rgba_usages, ATLAS_USAGES) {
        Some(AtlasFormat::Rgba8Unorm)
    } else {
        None
    }
}

/// The atlas of the current render device, published by the render world to the
/// main world.
pub struct GpuiGpuBridge<A> {
    atlas: Option<Arc<A>>,
    generation: u64,
}

/// The generation after another: it counts up and leaves out zero.
pub open spec fn next_generation(generation: u64) -> u64 {
    if generation == u64::MAX {
        1
    } else {
        (generation + 1) as u64
    }
}

impl<A> GpuiGpuBridge<A> {
    /// The published atlas.
    pub closed spec fn atlas_spec(self) -> Option<Arc<A>> {
        self.atlas
    }

    /// The generation published last.
    pub closed spec fn generation_spec(self) -> u64 {
        self.generation
    }

    /// The current device's generation and atlas, once one was published.
    pub fn snapshot(&self) -> (r: Option<(u64, Arc<A>)>)
        ensures
            r == (match self.atlas_spec() {
                Some(atlas) => Some((self.generation_spec(), atlas)),
                None => None,
            }),
    {
        match &self.atlas {
            Some(atlas) => Some((self.generation, atlas.clone())),
            None => None,
        }
    }

    /// Publishes the atlas of a new device and returns its generation.
    pub fn publish(&mut self, atlas: Arc<A>) -> (r: u64)
        ensures
            r == next_generation(old(self).generation_spec()),
            final(self).generation_spec() == r,
            final(self).atlas_spec() == Some(atlas),
    {
        let next: u64 = self.generation.wrapping_add(1);
        self.generation = if next == 0 {
            1
        } else {
            next
        };
        self.atlas = Some(atlas);
        self.generation
    }
}

impl<A> Default for GpuiGpuBridge<A> {
    /// No device yet.
    fn default() -> (r: Self)
        ensures
            r.atlas_spec() is None,
            r.generation_spec() == 0,
    {
        GpuiGpuBridge { atlas: None, generation: 0 }
    }
}

/// A published device always has a generation of its own: never zero, and never
/// that of the device before it.
pub proof fn law_generations_differ(generation: u64)
    ensures
        next_generation(generation) != 0,
        next_generation(generation) != generation,
        generation < u64::MAX ==> next_generation(generation) > generation,
{
}

/// What a scene renderer is made for.
#[derive(Clone, Copy, Debug, PartialEq, Eq, Hash)]
pub struct RendererKey {
    /// The view it draws into.
    pub view: u64,
    /// The format of that view's texture.
    pub format: TextureFormat,
}

impl RendererKey {
    /// Whether two renderers are made for the same view and format.
    pub fn same(&self, other: &RendererKey) -> (r: bool)
        ensures
            r == (*self == *other),
    {
        self.view == other.view && same_format(&self.format, &other.format)
    }
}

/// Resources of the current render device.
pub struct GpuiRenderState<A, R> {
    atlas: Option<Arc<A>>,
    renderers: Vec<(RendererKey, R)>,
    recorded_views: HashSet<u64>,
}

/// Whether there is a renderer for a view and format.
pub open spec fn has_key<R>(renderers: Seq<(RendererKey, R)>, key: RendererKey) -> bool {
    exists|i: int| 0 <= i < renderers.len() && (#[trigger] renderers[i]).0 == key
}

/// Whether each renderer is made for something else.
pub open spec fn distinct_keys<R>(renderers: Seq<(RendererKey, R)>) -> bool {
    forall|i: int, j: int|
        0 <= i < j < renderers.len() ==> (#[trigger] renderers[i]).0 != (
        #[trigger] renderers[j]).0
}

/// Renderers by what they are made for.
pub open spec fn by_key<R>(renderers: Seq<(RendererKey, R)>) -> Map<RendererKey, R> {
    Map::new(
        |key: RendererKey| has_key(renderers, key),
        |key: RendererKey|
            {
                let i = choose|i: int|
                    0 <= i < renderers.len() && (#[trigger] renderers[i]).0 == key;
                renderers[i].1
            },
    )
}

proof fn lemma_by_key<R>(renderers: Seq<(RendererKey, R)>, i: int)
    requires
        distinct_keys(renderers),
        0 <= i < renderers.len(),
    ensures
        by_key(renderers).contains_key(renderers[i].0),
        by_key(renderers)[renderers[i].0] == renderers[i].1,
{
    let key = renderers[i].0;
    let k = choose|k: int| 0 <= k < renderers.len() && (#[trigger] renderers[k]).0 == key;
    if k < i {
        assert(renderers[k].0 != renderers[i].0);
    } else if i < k {
        assert(renderers[i].0 != renderers[k].0);
    }
}

proof fn lemma_by_key_removed<R>(renderers: Seq<(RendererKey, R)>, i: int)
    requires
        distinct_keys(renderers),
        0 <= i < renderers.len(),
    ensures
        distinct_keys(renderers.remove(i)),
        by_key(renderers.remove(i)) == by_key(renderers).remove(renderers[i].0),
{
    let after = renderers.remove(i);
    let gone = renderers[i].0;
    assert forall|k: int| 0 <= k < after.len() implies (#[trigger] after[k]) == renderers[if k < i {
        k
    } else {
        k + 1
    }] by {}
    assert(distinct_keys(after)) by {
        assert forall|a: int, b: int| 0 <= a < b < after.len() implies (#[trigger] after[a]).0 != (
        #[trigger] after[b]).0 by {
            let x = if a < i {
                a
            } else {
                a + 1
            };
            let y = if b < i {
                b
            } else {
                b + 1
            };
            assert(renderers[x].0 != renderers[y].0);
        }
    }
    assert forall|key: RendererKey| #[trigger] by_key(after).contains_key(key) <==> by_key(
        renderers,
    ).remove(gone).contains_key(key) by {
        if has_key(after, key) {
            let k = choose|k: int| 0 <= k < after.len() && (#[trigger] after[k]).0 == key;
            let x = if k < i {
                k
            } else {
                k + 1
            };
            assert(renderers[x].0 == key);
            if x < i {
                assert(renderers[x].0 != renderers[i].0);
            } else {
                assert(renderers[i].0 != renderers[x].0);
            }
        }
        if has_key(renderers, key) && key != gone {
            let x = choose|x: int| 0 <= x < renderers.len() && (#[trigger] renderers[x]).0 == key;
            let k = if x < i {
                x
            } else {
                x - 1
            };
            assert(after[k].0 == key);
        }
    }
    assert forall|key: RendererKey| #[trigger] by_key(after).contains_key(key) implies by_key(
        after,
    )[key] == by_key(renderers)[key] by {
        let k = choose|k: int| 0 <= k < after.len() && (#[trigger] after[k]).0 == key;
        let x = if k < i {
            k
        } else {
            k + 1
        };
        lemma_by_key(after, k);
        lemma_by_key(renderers, x);
    }
    assert(by_key(after) =~= by_key(renderers).remove(gone));
}

proof fn lemma_by_key_added<R>(renderers: Seq<(RendererKey, R)>, key: RendererKey, renderer: R)
    requires
        distinct_keys(renderers),
        !has_key(renderers, key),
    ensures
        distinct_keys(renderers.push((key, renderer))),
        by_key(renderers.push((key, renderer))) == by_key(renderers).insert(key, renderer),
{
    let after = renderers.push((key, renderer));
    let n = renderers.len() as int;
    assert(forall|k: int| 0 <= k < n ==> (#[trigger] after[k]) == renderers[k]);
    assert(after[n] == (key, renderer));
    assert(distinct_keys(after)) by {
        assert forall|a: int, b: int| 0 <= a < b < after.len() implies (#[trigger] after[a]).0 != (
        #[trigger] after[b]).0 by {
            assert(after[a] == renderers[a]);
            if b < n {
                assert(renderers[a].0 != renderers[b].0);
            }
        }
    }
    assert forall|k: RendererKey| #[trigger] by_key(after).contains_key(k) <==> by_key(
        renderers,
    ).insert(key, renderer).contains_key(k) by {
        if has_key(after, k) {
            let i = choose|i: int| 0 <= i < after.len() && (#[trigger] after[i]).0 == k;
            if i < n {
                assert(renderers[i].0 == k);
            }
        }
        if has_key(renderers, k) {
            let i = choose|i: int| 0 <= i < renderers.len() && (#[trigger] renderers[i]).0 == k;
            assert(after[i].0 == k);
        }
        assert(after[n].0 == key);
    }
    assert forall|k: RendererKey| #[trigger] by_key(after).contains_key(k) implies by_key(after)[k]
        == by_key(renderers).insert(key, renderer)[k] by {
        let i = choose|i: int| 0 <= i < after.len() && (#[trigger] after[i]).0 == k;
        lemma_by_key(after, i);
        if i < n {
            lemma_by_key(renderers, i);
        }
    }
    assert(by_key(after) =~= by_key(renderers).insert(key, renderer));
}

impl<A, R> GpuiRenderState<A, R> {
    /// The atlas in use.
    pub closed spec fn atlas_spec(self) -> Option<Arc<A>> {
        self.atlas
    }

    /// The renderers in use, by what they are made for.
    pub closed spec fn renderers_spec(self) -> Map<RendererKey, R> {
        by_key(self.renderers@)
    }

    /// The views drawn into at least once.
    pub closed spec fn recorded_spec(self) -> Set<u64> {
        self.recorded_views@
    }

    /// There is one renderer for each view and format.
    pub closed spec fn wf(self) -> bool {
        distinct_keys(self.renderers@)
    }

    /// The atlas in use.
    pub fn cached_atlas(&self) -> (r: Option<Arc<A>>)
        ensures
            r == self.atlas_spec(),
    {
        match &self.atlas {
            Some(atlas) => Some(atlas.clone()),
            None => None,
        }
    }

    /// The atlas in use, which is the given one where there was none.
    pub fn atlas(&mut self, fresh: Arc<A>) -> (r: Arc<A>)
        ensures
            r == (match old(self).atlas_spec() {
                Some(atlas) => atlas,
                None => fresh,
            }),
            final(self).atlas_spec() == Some(r),
            final(self).renderers_spec() == old(self).renderers_spec(),
            final(self).recorded_spec() == old(self).recorded_spec(),
            old(self).wf() ==> final(self).wf(),
    {
        match &self.atlas {
            Some(atlas) => atlas.clone(),
            None => {
                self.atlas = Some(fresh.clone());
                fresh
            },
        }
    }

    /// Drops everything that belongs to a device that was replaced.
    pub fn reset(&mut self)
        ensures
            final(self).atlas_spec() is None,
            final(self).renderers_spec() == Map::<RendererKey, R>::empty(),
            final(self).recorded_spec() == Set::<u64>::empty(),
            final(self).wf(),
    {
        self.atlas = None;
        self.renderers = Vec::new();
        self.recorded_views = HashSet::new();
        proof {
            assert(by_key(self.renderers@) =~= Map::<RendererKey, R>::empty());
        }
    }

    /// Whether there is a renderer for a view and format.
    pub fn has_renderer(&self, key: &RendererKey) -> (r: bool)
        ensures
            r == self.renderers_spec().contains_key(*key),
    {
        let mut index: usize = 0;
        while index < self.renderers.len()
            invariant
                index <= self.renderers@.len(),
                forall|i: int| 0 <= i < index ==> (#[trigger] self.renderers@[i]).0 != *key,
            decreases self.renderers@.len() - index,
        {
            if self.renderers[index].0.same(key) {
                assert(self.renderers@[index as int].0 == *key);
                return true;
            }
            index = index + 1;
        }
        false
    }

    /// Takes out the renderer for a view and format, to draw with it and put it
    /// back.
    pub fn take_renderer(&mut self, key: &RendererKey) -> (r: Option<R>)
        requires
            old(self).wf(),
        ensures
            final(self).wf(),
            r == (if old(self).renderers_spec().contains_key(*key) {
                Some(old(self).renderers_spec()[*key])
            } else {
                None
            }),
            final(self).renderers_spec() == old(self).renderers_spec().remove(*key),
            final(self).atlas_spec() == old(self).atlas_spec(),
            final(self).recorded_spec() == old(self).recorded_spec(),
    {
        let mut index: usize = 0;
        while index < self.renderers.len()
            invariant
                index <= self.renderers@.len(),
                *self == *old(self),
                old(self).wf(),
                forall|i: int| 0 <= i < index ==> (#[trigger] self.renderers@[i]).0 != *key,
            decreases self.renderers@.len() - index,
        {
            if self.renderers[index].0.same(key) {
                let ghost before = self.renderers@;
                let (found, renderer) = self.renderers.remove(index);
                proof {
                    assert(before[index as int] == (*key, renderer));
                    lemma_by_key(before, index as int);
                    lemma_by_key_removed(before, index as int);
                }
                return Some(renderer);
            }
            index = index + 1;
        }
        proof {
            assert(by_key(self.renderers@).remove(*key) =~= by_key(self.renderers@));
        }
        None
    }

    /// Puts a renderer in place for a view and format that has none.
    pub fn insert_renderer(&mut self, key: RendererKey, renderer: R)
        requires
            old(self).wf(),
            !old(self).renderers_spec().contains_key(key),
        ensures
            final(self).wf(),
            final(self).renderers_spec() == old(self).renderers_spec().insert(key, renderer),
            final(self).atlas_spec() == old(self).atlas_spec(),
            final(self).recorded_spec() == old(self).recorded_spec(),
    {
        proof {
            lemma_by_key_added(self.renderers@, key, renderer);
        }
        self.renderers.push((key, renderer));
    }

    /// Starts to draw a scene with some filters into a view: it is planned, and the
    /// renderer for it is taken out where there is one. A view without an area is
    /// not drawn into.
    pub fn start_pass(
        &mut self,
        view: &PassView,
        backdrop_filters: usize,
        filter_boundaries: usize,
    ) -> (r: PassStart<R>)
        requires
            old(self).wf(),
        ensures
            final(self).wf(),
            ({
                let plan = pass_plan_spec(
                    *view,
                    backdrop_filters as nat,
                    filter_boundaries as nat,
                );
                let renderers = old(self).renderers_spec();
                if !has_area(view.viewport_size) {
                    r is Skip && final(self).renderers_spec() == renderers
                } else if renderers.contains_key(plan.key) {
                    r == (PassStart::<R>::Draw { plan, renderer: renderers[plan.key] })
                        && final(self).renderers_spec() == renderers.remove(plan.key)
                } else {
                    r == (PassStart::<R>::Make { plan }) && final(self).renderers_spec()
                        == renderers
                }
            }),
            final(self).atlas_spec() == old(self).atlas_spec(),
            final(self).recorded_spec() == old(self).recorded_spec(),
    {
        let plan = match plan_pass(view, backdrop_filters, filter_boundaries) {
            Some(plan) => plan,
            None => {
                return PassStart::Skip;
            },
        };
        match self.take_renderer(&plan.key) {
            Some(renderer) => PassStart::Draw { plan, renderer },
            None => {
                proof {
                    assert(old(self).renderers_spec().remove(plan.key) =~= old(
                        self,
                    ).renderers_spec());
                }
                PassStart::Make { plan }
            },
        }
    }

    /// Notes that a view was drawn into, and reports whether it is the first
    /// time.
    pub fn record_view(&mut self, view: u64) -> (r: bool)
        ensures
            r == !old(self).recorded_spec().contains(view),
            final(self).recorded_spec() == old(self).recorded_spec().insert(view),
            final(self).renderers_spec() == old(self).renderers_spec(),
            final(self).atlas_spec() == old(self).atlas_spec(),
            old(self).wf() ==> final(self).wf(),
    {
        let first: bool = !self.recorded_views.contains(&view);
        self.recorded_views.insert(view);
        first
    }

    /// Drops the renderers of a view that shows no scene any more.
    pub fn cleanup_view(&mut self, view: u64)
        requires
            old(self).wf(),
        ensures
            final(self).wf(),
            final(self).renderers_spec() == without_view(old(self).renderers_spec(), view),
            final(self).recorded_spec() == old(self).recorded_spec().remove(view),
            final(self).atlas_spec() == old(self).atlas_spec(),
    {
        let ghost before = self.renderers@;
        let ghost keep = other_view::<R>(view);
        let mut rest: Vec<(RendererKey, R)> = Vec::new();
        let mut kept: Vec<(RendererKey, R)> = Vec::new();
        std::mem::swap(&mut rest, &mut self.renderers);
        proof {
            reveal(Seq::filter);
            assert(before.skip(before.len() as int) =~= Seq::<(RendererKey, R)>::empty());
            assert(before.take(0).filter(keep) =~= Seq::<(RendererKey, R)>::empty());
            assert(before.skip(0) =~= before);
        }
        let ghost mut done: int = 0;
        while rest.len() > 0
            invariant
                0 <= done <= before.len(),
                keep == other_view::<R>(view),
                rest@ == before.skip(done),
                kept@ == before.take(done).filter(keep),
            decreases rest@.len(),
        {
            let item = rest.remove(0);
            proof {
                reveal(Seq::filter);
                assert(item == before[done]);
                assert(before.skip(done).remove(0) =~= before.skip(done + 1));
                let next = before.take(done + 1);
                assert(next.drop_last() =~= before.take(done));
                assert(next.last() == item);
                done = done + 1;
            }
            if item.0.view != view {
                kept.push(item);
            }
        }
        proof {
            assert(before.take(done) =~= before);
            lemma_filter_keeps_distinct(before, keep);
            lemma_by_key_filtered(before, view);
        }
        self.renderers = kept;
        self.recorded_views.remove(&view);
    }
}

impl<A, R> Default for GpuiRenderState<A, R> {
    /// Nothing yet.
    fn default() -> (r: Self)
        ensures
            r.atlas_spec() is None,
            r.renderers_spec() == Map::<RendererKey, R>::empty(),
            r.recorded_spec() == Set::<u64>::empty(),
            r.wf(),
    {
        let r = GpuiRenderState {
            atlas: None,
            renderers: Vec::new(),
            recorded_views: HashSet::new(),
        };
        proof {
            assert(by_key(r.renderers@) =~= Map::<RendererKey, R>::empty());
        }
        r
    }
}

/// Whether a renderer belongs to another view.
pub open spec fn other_view<R>(view: u64) -> spec_fn((RendererKey, R)) -> bool {
    |item: (RendererKey, R)| item.0.view != view
}

proof fn lemma_filter_keeps_distinct<R>(
    renderers: Seq<(RendererKey, R)>,
    keep: spec_fn((RendererKey, R)) -> bool,
)
    requires
        distinct_keys(renderers),
    ensures
        distinct_keys(renderers.filter(keep)),
    decreases renderers.len(),
{
    reveal(Seq::filter);
    if renderers.len() > 0 {
        let rest = renderers.drop_last();
        let last = renderers.last();
        assert forall|i: int, j: int| 0 <= i < j < rest.len() implies (#[trigger] rest[i]).0 != (
        #[trigger] rest[j]).0 by {
            assert(rest[i] == renderers[i] && rest[j] == renderers[j]);
        }
        lemma_filter_keeps_distinct(rest, keep);
        let kept = rest.filter(keep);
        let all = renderers.filter(keep);
        assert forall|i: int, j: int| 0 <= i < j < all.len() implies (#[trigger] all[i]).0 != (
        #[trigger] all[j]).0 by {
            assert(all[i] == kept[i]);
            if j < kept.len() {
                assert(all[j] == kept[j]);
            } else {
                assert(all[j] == last);
                assert(kept.contains(kept[i]));
                rest.lemma_filter_contains_rev(keep, kept[i]);
                let k = choose|k: int| 0 <= k < rest.len() && rest[k] == kept[i];
                assert(renderers[k] == kept[i]);
                assert(renderers[renderers.len() - 1] == last);
            }
        }
    }
}

/// The renderers of all views but one.
pub open spec fn without_view<R>(renderers: Map<RendererKey, R>, view: u64) -> Map<RendererKey, R> {
    Map::new(
        |key: RendererKey| renderers.contains_key(key) && key.view != view,
        |key: RendererKey| renderers[key],
    )
}

proof fn lemma_by_key_filtered<R>(renderers: Seq<(RendererKey, R)>, view: u64)
    requires
        distinct_keys(renderers),
    ensures
        by_key(renderers.filter(other_view(view))) == without_view(by_key(renderers), view),
{
    broadcast use vstd::seq_lib::group_filter_ensures;

    let keep = other_view::<R>(view);
    let kept = renderers.filter(keep);
    lemma_filter_keeps_distinct(renderers, keep);
    assert forall|key: RendererKey| #[trigger] by_key(kept).contains_key(key) implies without_view(
        by_key(renderers),
        view,
    ).contains_key(key) && by_key(kept)[key] == by_key(renderers)[key] by {
        let i = choose|i: int| 0 <= i < kept.len() && (#[trigger] kept[i]).0 == key;
        assert(keep(kept[i]));
        assert(kept.contains(kept[i]));
        renderers.lemma_filter_contains_rev(keep, kept[i]);
        let k = choose|k: int| 0 <= k < renderers.len() && renderers[k] == kept[i];
        assert(renderers[k].0 == key);
        lemma_by_key(kept, i);
        lemma_by_key(renderers, k);
    }
    assert forall|key: RendererKey| #[trigger]
        without_view(by_key(renderers), view).contains_key(key) implies by_key(kept).contains_key(
        key,
    ) by {
        let i = choose|i: int| 0 <= i < renderers.len() && (#[trigger] renderers[i]).0 == key;
        assert(keep(renderers[i]));
        assert(kept.contains(renderers[i]));
        let k = choose|k: int| 0 <= k < kept.len() && kept[k] == renderers[i];
        assert(kept[k].0 == key);
    }
    assert(by_key(kept) =~= without_view(by_key(renderers), view));
}

/// A view that shows no scene any more keeps no renderer, and the renderers of other
/// views stay.
pub proof fn law_cleanup_is_per_view<R>(
    renderers: Map<RendererKey, R>,
    view: u64,
    key: RendererKey,
)
    ensures
        without_view(renderers, view).contains_key(key) <==> renderers.contains_key(key) && key.view
            != view,
        without_view(renderers, view).contains_key(key) ==> without_view(renderers, view)[key]
            == renderers[key],
{
}

/// Width and height, or a position, in device pixels.
#[derive(Clone, Copy, Debug, PartialEq, Eq, Structural)]
pub struct DevicePoint {
    pub x: i32,
    pub y: i32,
}

/// Two unsigned coordinates.
#[derive(Clone, Copy, Debug, PartialEq, Eq, Structural)]
pub struct PhysicalPoint {
    pub x: u32,
    pub y: u32,
}

/// A number of pixels as a signed number: from `2^31` on it wraps around.
pub open spec fn device_pixels(pixels: u32) -> i32 {
    if pixels < 0x8000_0000 {
        pixels as i32
    } else {
        (pixels - 0x1_0000_0000) as i32
    }
}

impl PhysicalPoint {
    /// The point in device pixels.
    pub open spec fn device(self) -> DevicePoint {
        DevicePoint { x: device_pixels(self.x), y: device_pixels(self.y) }
    }
}

fn to_device_pixels(pixels: u32) -> (r: i32)
    ensures
        r == device_pixels(pixels),
{
    if pixels < 0x8000_0000 {
        pixels as i32
    } else {
        ((pixels as i64) - 0x1_0000_0000) as i32
    }
}

fn to_device(point: PhysicalPoint) -> (r: DevicePoint)
    ensures
        r == point.device(),
{
    DevicePoint { x: to_device_pixels(point.x), y: to_device_pixels(point.y) }
}

/// What a camera offers to draw into.
#[derive(Clone, Copy, Debug)]
pub struct PassView {
    /// The view.
    pub view: u64,
    /// The format of its texture.
    pub format: TextureFormat,
    /// The size of the camera's viewport.
    pub viewport_size: Option<PhysicalPoint>,
    /// Where the viewport starts, if the camera has one of its own.
    pub viewport_origin: Option<PhysicalPoint>,
    /// The size of the whole target.
    pub target_size: Option<PhysicalPoint>,
}

/// How a scene is drawn.
#[derive(Clone, Copy, Debug)]
pub struct PassPlan {
    /// What the renderer is made for.
    pub key: RendererKey,
    /// The size to draw.
    pub size: DevicePoint,
    /// Where to draw it.
    pub origin: DevicePoint,
    /// The size of the whole target.
    pub target_size: DevicePoint,
    /// Whether the scene reads what is behind it.
    pub uses_filters: bool,
}

/// What drawing a scene into a view starts with.
pub enum PassStart<R> {
    /// There is nothing to draw into.
    Skip,
    /// There is no renderer for the view and format yet: one is to be made.
    Make { plan: PassPlan },
    /// The renderer is the one to draw with, and to put back.
    Draw { plan: PassPlan, renderer: R },
}

/// Whether a viewport has an area.
pub open spec fn has_area(size: Option<PhysicalPoint>) -> bool {
    size matches Some(size) && size.x != 0 && size.y != 0
}

/// The plan for a view whose viewport has an area.
pub open spec fn pass_plan_spec(
    view: PassView,
    backdrop_filters: nat,
    filter_boundaries: nat,
) -> PassPlan {
    let size = view.viewport_size->0;
    PassPlan {
        key: RendererKey { view: view.view, format: view.format },
        size: size.device(),
        origin: match view.viewport_origin {
            Some(origin) => origin.device(),
            None => DevicePoint { x: 0, y: 0 },
        },
        target_size: match view.target_size {
            Some(target) => target.device(),
            None => size.device(),
        },
        uses_filters: backdrop_filters > 0 || filter_boundaries > 0,
    }
}

/// Plans how a scene with some filters is drawn into a view. A view without an area
/// is not drawn into.
pub fn plan_pass(view: &PassView, backdrop_filters: usize, filter_boundaries: usize) -> (r: Option<
    PassPlan,
>)
    ensures
        r is Some <==> has_area(view.viewport_size),
        r matches Some(plan) ==> plan == pass_plan_spec(
            *view,
            backdrop_filters as nat,
            filter_boundaries as nat,
        ),
{
    let size = match view.viewport_size {
        Some(size) => size,
        None => {
            return None;
        },
    };
    if size.x == 0 || size.y == 0 {
        return None;
    }
    let origin = match view.viewport_origin {
        Some(origin) => to_device(origin),
        None => DevicePoint { x: 0, y: 0 },
    };
    let target_size = match view.target_size {
        Some(target) => to_device(target),
        None => to_device(size),
    };
    Some(
        PassPlan {
            key: RendererKey { view: view.view, format: view.format },
            size: to_device(size),
            origin,
            target_size,
            uses_filters: backdrop_filters > 0 || filter_boundaries > 0,
        },
    )
}

/// One pass over a view, as [`GpuiRenderState::start_pass`] starts it and
/// [`GpuiRenderState::insert_renderer`] ends it.
pub struct RenderPass<R> {
    /// The view.
    pub view: PassView,
    /// The renderer made for the pass, if one was to be made and could be.
    pub made: Option<R>,
    /// What drawing left of the renderer.
    pub left: R,
}

impl<R> RenderPass<R> {
    /// What the renderer of the pass is made for.
    pub open spec fn key(self) -> RendererKey {
        RendererKey { view: self.view.view, format: self.view.format }
    }

    /// Whether the pass draws for a view and format, as far as it can.
    pub open spec fn needs(self, key: RendererKey) -> bool {
        has_area(self.view.viewport_size) && self.key() == key
    }

    /// Whether a renderer is to be made for the pass.
    pub open spec fn must_make(self, renderers: Map<RendererKey, R>) -> bool {
        has_area(self.view.viewport_size) && !renderers.contains_key(self.key())
    }

    /// The renderer the pass draws with.
    pub open spec fn draws_with(self, renderers: Map<RendererKey, R>) -> Option<R> {
        if !has_area(self.view.viewport_size) {
            None
        } else if renderers.contains_key(self.key()) {
            Some(renderers[self.key()])
        } else {
            self.made
        }
    }

    /// The renderers after the pass.
    pub open spec fn leaves(self, renderers: Map<RendererKey, R>) -> Map<RendererKey, R> {
        if self.draws_with(renderers) is Some {
            renderers.insert(self.key(), self.left)
        } else {
            renderers
        }
    }
}

/// The renderers after some passes.
pub open spec fn after_passes<R>(
    renderers: Map<RendererKey, R>,
    passes: Seq<RenderPass<R>>,
) -> Map<RendererKey, R>
    decreases passes.len(),
{
    if passes.len() == 0 {
        renderers
    } else {
        passes.last().leaves(after_passes(renderers, passes.drop_last()))
    }
}

/// The renderers before one of some passes.
pub open spec fn before_pass<R>(
    renderers: Map<RendererKey, R>,
    passes: Seq<RenderPass<R>>,
    i: int,
) -> Map<RendererKey, R> {
    after_passes(renderers, passes.take(i))
}

/// Whether renderers are made only for passes that need one.
pub open spec fn makes_as_needed<R>(
    renderers: Map<RendererKey, R>,
    passes: Seq<RenderPass<R>>,
) -> bool {
    forall|i: int|
        0 <= i < passes.len() && (#[trigger] passes[i]).made is Some ==> passes[i].must_make(
            before_pass(renderers, passes, i),
        )
}

proof fn lemma_pass_by_pass<R>(
    renderers: Map<RendererKey, R>,
    passes: Seq<RenderPass<R>>,
    i: int,
)
    requires
        0 <= i < passes.len(),
    ensures
        before_pass(renderers, passes, i + 1) == passes[i].leaves(
            before_pass(renderers, passes, i),
        ),
{
    assert(passes.take(i + 1).drop_last() =~= passes.take(i));
    assert(passes.take(i + 1).last() == passes[i]);
}

proof fn lemma_renderer_stays<R>(
    renderers: Map<RendererKey, R>,
    passes: Seq<RenderPass<R>>,
    key: RendererKey,
    i: int,
    j: int,
)
    requires
        0 <= i <= j <= passes.len(),
        before_pass(renderers, passes, i).contains_key(key),
    ensures
        before_pass(renderers, passes, j).contains_key(key),
        (forall|k: int| i <= k < j ==> !(#[trigger] passes[k]).needs(key)) ==> before_pass(
            renderers,
            passes,
            j,
        )[key] == before_pass(renderers, passes, i)[key],
    decreases j - i,
{
    if i < j {
        lemma_renderer_stays(renderers, passes, key, i, j - 1);
        lemma_pass_by_pass(renderers, passes, j - 1);
        if forall|k: int| i <= k < j ==> !(#[trigger] passes[k]).needs(key) {
            assert(!passes[j - 1].needs(key));
        }
    }
}

/// Over any passes on one device a renderer is made for a view and format at most
/// once, and every later pass for them draws with it as the pass before left it,
/// whatever passes for other views or formats come in between. A pass over a view
/// without an area draws with nothing, has nothing made and leaves all renderers as
/// they are.
pub proof fn law_renderers_are_reused<R>(
    renderers: Map<RendererKey, R>,
    passes: Seq<RenderPass<R>>,
    i: int,
    j: int,
)
    requires
        makes_as_needed(renderers, passes),
        0 <= i < j < passes.len(),
    ensures
        passes[i].draws_with(before_pass(renderers, passes, i)) is Some && passes[j].needs(
            passes[i].key(),
        ) ==> {
            let before = before_pass(renderers, passes, j);
            &&& passes[j].made is None
            &&& !passes[j].must_make(before)
            &&& passes[j].draws_with(before) is Some
            &&& (forall|k: int| i < k < j ==> !(#[trigger] passes[k]).needs(passes[i].key()))
                ==> passes[j].draws_with(before) == Some(passes[i].left)
        },
        passes[i].made is Some && passes[j].made is Some ==> passes[i].key() != passes[j].key(),
        !has_area(passes[i].view.viewport_size) ==> {
            let before = before_pass(renderers, passes, i);
            &&& passes[i].made is None
            &&& passes[i].draws_with(before) is None
            &&& passes[i].leaves(before) == before
        },
{
    let key = passes[i].key();
    lemma_pass_by_pass(renderers, passes, i);
    if passes[i].draws_with(before_pass(renderers, passes, i)) is Some {
        assert(before_pass(renderers, passes, i + 1).contains_key(key));
        lemma_renderer_stays(renderers, passes, key, i + 1, j);
        assert(passes[j].made is Some ==> passes[j].must_make(before_pass(renderers, passes, j)));
    }
    assert(passes[i].made is Some ==> passes[i].must_make(before_pass(renderers, passes, i)));
}

/// Below `2^31` a number of pixels stays itself, and above it wraps around by `2^32`;
/// so different numbers stay different.
pub proof fn law_device_pixels_wrap(a: u32, b: u32)
    ensures
        a < 0x8000_0000 ==> device_pixels(a) == a,
        a >= 0x8000_0000 ==> device_pixels(a) == a - 0x1_0000_0000,
        device_pixels(a) == device_pixels(b) ==> a == b,
{
}

/// A scene is drawn at the size of its viewport, where the viewport starts or at the
/// corner of the target, into a target as large as the host says or else as large as
/// the viewport; width stays width and height height. It reads what is behind it
/// exactly where it has a filter of either kind.
pub proof fn law_pass_fills_the_viewport(
    view: PassView,
    size: PhysicalPoint,
    backdrop_filters: nat,
    filter_boundaries: nat,
)
    requires
        view.viewport_size == Some(size),
        size.x < 0x8000_0000 && size.y < 0x8000_0000,
    ensures
        ({
            let plan = pass_plan_spec(view, backdrop_filters, filter_boundaries);
            &&& plan.key.view == view.view && plan.key.format == view.format
            &&& plan.size.x == size.x && plan.size.y == size.y
            &&& view.viewport_origin is None ==> plan.origin.x == 0 && plan.origin.y == 0
            &&& view.viewport_origin matches Some(origin) ==> (origin.x < 0x8000_0000 && origin.y
                < 0x8000_0000 ==> plan.origin.x == origin.x && plan.origin.y == origin.y)
            &&& view.target_size is None ==> plan.target_size.x == size.x && plan.target_size.y
                == size.y
            &&& view.target_size matches Some(target) ==> (target.x < 0x8000_0000 && target.y
                < 0x8000_0000 ==> plan.target_size.x == target.x && plan.target_size.y == target.y)
            &&& !plan.uses_filters <==> backdrop_filters == 0 && filter_boundaries == 0
        }),
{
}

/// A view is drawn into exactly where it has a viewport that is neither empty in width
/// nor in height.
pub proof fn law_empty_viewports_are_skipped(size: Option<PhysicalPoint>)
    ensures
        size is None ==> !has_area(size),
        size matches Some(extent) ==> (has_area(size) <==> extent.x > 0 && extent.y > 0),
{
}

/// The atlas is blue first where the device allows that format to be copied to and to be
/// bound, red first where it allows only that one, and there is none where it allows
/// neither.
pub proof fn law_atlas_prefers_blue_first(
    bgra_usages: u32,
    rgba_usages: u32,
    r: Option<AtlasFormat>,
)
    requires
        call_ensures(atlas_format, (bgra_usages, rgba_usages), r),
    ensures
        bgra_usages & 2 == 2 && bgra_usages & 4 == 4 ==> r == Some(AtlasFormat::Bgra8Unorm),
        !(bgra_usages & 2 == 2 && bgra_usages & 4 == 4) && rgba_usages & 2 == 2 && rgba_usages & 4
            == 4 ==> r == Some(AtlasFormat::Rgba8Unorm),
        !(bgra_usages & 2 == 2 && bgra_usages & 4 == 4) && !(rgba_usages & 2 == 2 && rgba_usages & 4
            == 4) ==> r is None,
{
    assert(bgra_usages & 6 == 6 <==> bgra_usages & 2 == 2 && bgra_usages & 4 == 4) by (bit_vector);
    assert(rgba_usages & 6 == 6 <==> rgba_usages & 2 == 2 && rgba_usages & 4 == 4) by (bit_vector);
}

/// The device that was published last is the one that is seen, with a generation other
/// than that of the device before it.
pub proof fn law_latest_device_is_seen<A>(
    bridge: &mut GpuiGpuBridge<A>,
    atlas: Arc<A>,
    generation: u64,
    after: GpuiGpuBridge<A>,
    seen: Option<(u64, Arc<A>)>,
)
    requires
        call_ensures(GpuiGpuBridge::<A>::publish, (bridge, atlas), generation),
        after.atlas_spec() == final(bridge).atlas_spec(),
        after.generation_spec() == final(bridge).generation_spec(),
        call_ensures(GpuiGpuBridge::<A>::snapshot, (&after,), seen),
    ensures
        seen == Some((generation, atlas)),
        generation != 0,
        generation != old(bridge).generation_spec(),
{
}

/// A renderer that was put back is the one that is taken next for its view and format,
/// and taking it leaves the others.
pub proof fn law_renderers_come_back<A, R>(
    state: &mut GpuiRenderState<A, R>,
    key: RendererKey,
    renderer: R,
    later: &mut GpuiRenderState<A, R>,
    taken: Option<R>,
    other: RendererKey,
)
    requires
        call_ensures(GpuiRenderState::<A, R>::insert_renderer, (state, key, renderer), ()),
        old(later).renderers_spec() == final(state).renderers_spec(),
        call_ensures(GpuiRenderState::<A, R>::take_renderer, (later, &key), taken),
    ensures
        taken == Some(renderer),
        !final(later).renderers_spec().contains_key(key),
        other != key ==> (final(later).renderers_spec().contains_key(other) <==> old(
            state,
        ).renderers_spec().contains_key(other)),
{
}

/// A view that was just drawn into is not new the next time, and it is new exactly where
/// it was not recorded.
pub proof fn law_views_are_new_once<A, R>(
    state: &mut GpuiRenderState<A, R>,
    view: u64,
    first: bool,
    later: &mut GpuiRenderState<A, R>,
    again: bool,
)
    requires
        call_ensures(GpuiRenderState::<A, R>::record_view, (state, view), first),
        old(later).recorded_spec() == final(state).recorded_spec(),
        call_ensures(GpuiRenderState::<A, R>::record_view, (later, view), again),
    ensures
        first <==> !old(state).recorded_spec().contains(view),
        !again,
{
}

} // verus!
