//! State shared between the UI loop and the ECS loop.

use vstd::prelude::*;
use std::ops::{Deref, DerefMut};
use std::sync::Arc;

verus! {

/// A backing store for state that the UI loop and the ECS loop share. Its
/// guards give access to the state; how they exclude one another is the
/// store's own matter.
pub trait UiContextStorage: Send + Sync {
    type State: Send + Sync;

    type WriteGuard<'a>: Deref<Target = Self::State> + DerefMut<Target = Self::State> + 'a where
        Self: 'a;

    type ReadGuard<'a>: Deref<Target = Self::State> + 'a where Self: 'a;

    fn write(&self) -> Self::WriteGuard<'_>;

    fn read(&self) -> Self::ReadGuard<'_>;
}

/// UI data wrapper that hides the backing storage choice.
/// This is for sharing state between the UI loop and the ECS loop.
pub struct UiContext<S> where S: UiContextStorage {
    storage: Arc<S>,
}

impl<S> UiContext<S> where S: UiContextStorage {
    /// The storage behind the context.
    pub closed spec fn spec_storage(&self) -> S {
        *self.storage
    }

    /// Create a context from an arbitrary storage backend.
    pub fn new(storage: S) -> (ctx: Self)
        ensures
            ctx.spec_storage() == storage,
    {
        UiContext { storage: Arc::new(storage) }
    }

    /// Obtain a read handle without knowing the concrete storage type: the
    /// guard that the storage's own `read` gives.
    pub fn read(&self) -> (guard: S::ReadGuard<'_>)
        ensures
            S::read.ensures((&self.spec_storage(),), guard),
    {
        self.storage.read()
    }

    /// Obtain a write handle without knowing the concrete storage type: the
    /// guard that the storage's own `write` gives.
    pub fn write(&self) -> (guard: S::WriteGuard<'_>)
        ensures
            S::write.ensures((&self.spec_storage(),), guard),
    {
        self.storage.write()
    }

    /// Access the underlying storage for feature-specific helpers.
    pub fn storage(&self) -> (s: &S)
        ensures
            *s == self.spec_storage(),
    {
        &self.storage
    }
}

} // verus!
