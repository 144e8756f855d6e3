use vstd::prelude::*;

use crate::error::LDBError;
use crate::lazy_container::LazyContainer;

verus! {

/// A type of the user's that keeps its fields in a container, loading them on
/// demand and caching them.
pub trait LazyObject: Sized {
    /// The container that holds the object's fields.
    fn as_container(&self) -> &LazyContainer;

    /// Writes the cached fields to the container.
    fn store_lazy(&self) -> Result<(), LDBError>;

    /// An object over `container` with nothing cached yet.
    fn load_lazy(container: LazyContainer) -> Self;

    /// Forgets the cached fields.
    fn clear_cache(&mut self);
}

} // verus!
