use vstd::prelude::*;

verus! {

/// What can go wrong in an operation on a device.
#[derive(Debug, PartialEq, Eq)]
pub enum Error {
    /// The backend could not provide the requested region.
    Allocation,
    /// The backend rejected a call: an unknown or released handle, a
    /// length or a range that does not fit the region.
    Driver,
    /// A kernel did not build; carries the backend's diagnostic text.
    Compile(String),
    /// A buffer or a kernel handle was used with a device other than the
    /// one that issued it.
    DeviceMismatch,
    /// A region was to be filed for a node for which the cache holds one
    /// already.  A retrieval never gives this: where the index of the
    /// requested node is cached with another length or other parents, the
    /// path has left the one that filled the cache, and the retrieval
    /// allocates a region for the new node beside the old one.
    StaleCache,
}

} // verus!
