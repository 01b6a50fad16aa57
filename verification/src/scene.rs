//! Scenes handed to the renderer.
use std::sync::Arc;
use vstd::prelude::*;

verus! {

/// An immutable retained scene associated with one host camera.
///
/// It is cheaply cloned into the render world.
pub struct GpuiScene<S> {
    /// Immutable renderer-ready snapshot shared with the render world.
    pub snapshot: Arc<S>,
    /// Generation for this retained context, growing with each scene, also where the
    /// render device was replaced in between.
    pub generation: u64,
}

impl<S> GpuiScene<S> {
    /// Wraps a snapshot for sharing.
    pub fn new(snapshot: S, generation: u64) -> (r: Self)
        ensures
            *r.snapshot == snapshot,
            r.generation == generation,
    {
        GpuiScene { snapshot: Arc::new(snapshot), generation }
    }
}

impl<S> Clone for GpuiScene<S> {
    /// Shares the snapshot.
    fn clone(&self) -> (r: Self)
        ensures
            r == *self,
    {
        GpuiScene { snapshot: self.snapshot.clone(), generation: self.generation }
    }
}

} // verus!
