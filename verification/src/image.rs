//! Host images painted inside retained views.
use crate::ids::contains_id;
use std::collections::HashMap;
use vstd::prelude::*;

verus! {

broadcast use vstd::std_specs::hash::group_hash_axioms;

/// Source of surface ids.
pub struct ExternalImageIds {
    next: u64,
}

impl ExternalImageIds {
    /// The id handed out next.
    pub closed spec fn next_spec(self) -> u64 {
        self.next
    }

    /// Hands out the next id. After the largest id the count starts over at zero.
    pub fn allocate(&mut self) -> (r: u64)
        ensures
            r == old(self).next_spec(),
            final(self).next_spec() == (if r == u64::MAX {
                0
            } else {
                (r + 1) as u64
            }),
    {
        let id: u64 = self.next;
        self.next = id.wrapping_add(1);
        id
    }
}

impl Default for ExternalImageIds {
    /// The first id is one.
    fn default() -> (r: Self)
        ensures
            r.next_spec() == 1,
    {
        ExternalImageIds { next: 1 }
    }
}

/// A host image that can be painted directly inside a retained view.
///
/// It keeps the image alive for as long as a view shows it, and remembers the
/// registries that know it.
pub struct GpuiBevyImage<H> {
    id: u64,
    handle: H,
    registries: Vec<u64>,
}

impl<H> GpuiBevyImage<H> {
    /// The surface id under which views paint the image.
    pub closed spec fn id_spec(self) -> u64 {
        self.id
    }

    /// The image.
    pub closed spec fn handle_spec(self) -> H {
        self.handle
    }

    /// The registries that know the image.
    pub closed spec fn registries_spec(self) -> Seq<u64> {
        self.registries@
    }

    /// No registry is remembered twice.
    pub open spec fn wf(self) -> bool {
        self.registries_spec().no_duplicates()
    }

    /// Creates a stable reference to a host image under a new surface id.
    pub fn new(ids: &mut ExternalImageIds, handle: H) -> (r: Self)
        ensures
            r.id_spec() == old(ids).next_spec(),
            r.handle_spec() == handle,
            r.registries_spec() == Seq::<u64>::empty(),
            r.wf(),
            final(ids).next_spec() == (if old(ids).next_spec() == u64::MAX {
                0
            } else {
                (old(ids).next_spec() + 1) as u64
            }),
    {
        GpuiBevyImage { id: ids.allocate(), handle, registries: Vec::new() }
    }

    /// The surface id under which views paint the image.
    pub fn id(&self) -> (r: u64)
        ensures
            r == self.id_spec(),
    {
        self.id
    }

    /// The image.
    pub fn handle(&self) -> (r: &H)
        ensures
            *r == self.handle_spec(),
    {
        &self.handle
    }

    /// Remembers a registry that knows the image.
    pub fn note_registry(&mut self, registry: u64)
        requires
            old(self).wf(),
        ensures
            final(self).wf(),
            final(self).id_spec() == old(self).id_spec(),
            final(self).handle_spec() == old(self).handle_spec(),
            final(self).registries_spec() == (if old(self).registries_spec().contains(registry) {
                old(self).registries_spec()
            } else {
                old(self).registries_spec().push(registry)
            }),
    {
        if !contains_id(&self.registries, registry) {
            self.registries.push(registry);
        }
    }

    /// The registries that have to forget the image once nothing shows it any
    /// more.
    pub fn into_registries(self) -> (r: Vec<u64>)
        ensures
            r@ == self.registries_spec(),
    {
        self.registries
    }
}

/// The images that views of one application paint, by surface id.
pub struct GpuiImageRegistry<A> {
    images: HashMap<u64, A>,
    missing: bool,
}

impl<A> GpuiImageRegistry<A> {
    /// The assets by surface id.
    pub closed spec fn images_spec(self) -> Map<u64, A> {
        self.images@
    }

    /// Whether an image could not be drawn since somebody last asked.
    pub closed spec fn missing_spec(self) -> bool {
        self.missing
    }

    /// Makes an image known under its surface id.
    pub fn register(&mut self, id: u64, asset: A)
        ensures
            final(self).images_spec() == old(self).images_spec().insert(id, asset),
            final(self).missing_spec() == old(self).missing_spec(),
    {
        self.images.insert(id, asset);
    }

    /// The asset painted under a surface id.
    pub fn asset_id(&self, id: u64) -> (r: Option<&A>)
        ensures
            r == (if self.images_spec().contains_key(id) {
                Some(&self.images_spec()[id])
            } else {
                None
            }),
    {
        self.images.get(&id)
    }

    /// Forgets an image that nothing shows any more.
    pub fn forget(&mut self, id: u64)
        ensures
            final(self).images_spec() == old(self).images_spec().remove(id),
            final(self).missing_spec() == old(self).missing_spec(),
    {
        let removed = self.images.remove(&id);
        proof {
            if removed is None {
                assert(old(self).images@.remove(id) =~= old(self).images@);
            }
        }
    }

    /// Notes that an image could not be drawn.
    pub fn mark_missing(&mut self)
        ensures
            final(self).images_spec() == old(self).images_spec(),
            final(self).missing_spec(),
    {
        self.missing = true;
    }

    /// Whether an image could not be drawn since the last call.
    pub fn take_missing(&mut self) -> (r: bool)
        ensures
            r == old(self).missing_spec(),
            final(self).images_spec() == old(self).images_spec(),
            !final(self).missing_spec(),
    {
        let missing: bool = self.missing;
        self.missing = false;
        missing
    }

    /// Whether a surface is drawn from its own image, where `prepared` tells
    /// whether the renderer has the image. Otherwise a stand-in is drawn, and the
    /// views are drawn again later.
    pub fn resolve_surface(&mut self, id: u64, prepared: bool) -> (r: bool)
        ensures
            r == (old(self).images_spec().contains_key(id) && prepared),
            final(self).images_spec() == old(self).images_spec(),
            final(self).missing_spec() == (old(self).missing_spec() || !r),
    {
        let found: bool = self.images.contains_key(&id) && prepared;
        if !found {
            self.mark_missing();
        }
        found
    }
}

impl<A> Default for GpuiImageRegistry<A> {
    /// Knows no image.
    fn default() -> (r: Self)
        ensures
            r.images_spec() == Map::<u64, A>::empty(),
            !r.missing_spec(),
    {
        GpuiImageRegistry { images: HashMap::new(), missing: false }
    }
}

/// An image that was registered and forgotten leaves a registry that did not know
/// it as it was, and other images stay known throughout.
pub proof fn law_registry_forgets_dropped_images<A>(
    images: Map<u64, A>,
    id: u64,
    asset: A,
    other: u64,
)
    requires
        !images.contains_key(id),
        id != other,
    ensures
        images.insert(id, asset).contains_key(id),
        images.insert(id, asset).remove(id) == images,
        images.contains_key(other) ==> images.insert(id, asset).remove(id).contains_key(other)
            && images.insert(id, asset).remove(id)[other] == images[other],
{
    assert(images.insert(id, asset).remove(id) =~= images);
}

/// A surface is drawn from its image exactly where the registry knows it and the
/// renderer has it; otherwise it is noted as missing. What is known does not change.
pub proof fn law_surfaces_draw_known_images<A>(
    registry: &mut GpuiImageRegistry<A>,
    id: u64,
    prepared: bool,
    drawn: bool,
)
    requires
        call_ensures(GpuiImageRegistry::<A>::resolve_surface, (registry, id, prepared), drawn),
    ensures
        drawn <==> prepared && old(registry).images_spec().contains_key(id),
        !drawn ==> final(registry).missing_spec(),
        drawn ==> final(registry).missing_spec() == old(registry).missing_spec(),
        final(registry).images_spec() == old(registry).images_spec(),
{
}

/// Images created one after the other have different surface ids.
pub proof fn law_surface_ids_differ<H>(
    ids: &mut ExternalImageIds,
    first: GpuiBevyImage<H>,
    handle: H,
    later: &mut ExternalImageIds,
    second: GpuiBevyImage<H>,
    other: H,
)
    requires
        call_ensures(GpuiBevyImage::<H>::new, (ids, handle), first),
        old(later).next_spec() == final(ids).next_spec(),
        call_ensures(GpuiBevyImage::<H>::new, (later, other), second),
    ensures
        first.id_spec() != second.id_spec(),
        first.handle_spec() == handle,
        second.handle_spec() == other,
{
}

/// An image that was made known is found under its surface id until it is forgotten, and
/// is not found after; other images are found throughout.
pub proof fn law_known_images_are_found<A>(
    registry: &mut GpuiImageRegistry<A>,
    id: u64,
    asset: A,
    known: GpuiImageRegistry<A>,
    found: Option<&A>,
    later: &mut GpuiImageRegistry<A>,
    emptied: GpuiImageRegistry<A>,
    lost: Option<&A>,
    other: u64,
)
    requires
        call_ensures(GpuiImageRegistry::<A>::register, (registry, id, asset), ()),
        known.images_spec() == final(registry).images_spec(),
        call_ensures(GpuiImageRegistry::<A>::asset_id, (&known, id), found),
        old(later).images_spec() == final(registry).images_spec(),
        call_ensures(GpuiImageRegistry::<A>::forget, (later, id), ()),
        emptied.images_spec() == final(later).images_spec(),
        call_ensures(GpuiImageRegistry::<A>::asset_id, (&emptied, id), lost),
    ensures
        found == Some(&asset),
        lost is None,
        other != id ==> (final(later).images_spec().contains_key(other) <==> old(
            registry,
        ).images_spec().contains_key(other)),
        other != id && old(registry).images_spec().contains_key(other)
            ==> final(later).images_spec()[other] == old(registry).images_spec()[other],
{
}

/// That an image was missing is told once.
pub proof fn law_missing_images_are_told_once<A>(
    registry: &mut GpuiImageRegistry<A>,
    later: &mut GpuiImageRegistry<A>,
    told: bool,
)
    requires
        call_ensures(GpuiImageRegistry::<A>::mark_missing, (registry,), ()),
        old(later).missing_spec() == final(registry).missing_spec(),
        call_ensures(GpuiImageRegistry::<A>::take_missing, (later,), told),
    ensures
        told,
        !final(later).missing_spec(),
{
}

} // verus!
