use vstd::prelude::*;

verus! {

#[verifier::external_type_specification]
#[verifier::external_body]
pub struct ExStoreError(disklru::Error);

#[verifier::external_type_specification]
#[verifier::external_body]
pub struct ExIoError(std::io::Error);

/// A failure of the underlying ordered store.
#[derive(Debug)]
pub struct DiskLRUError(pub disklru::Error);

/// Errors of the cache layer.
#[derive(Debug)]
pub enum LRUError {
    /// The ordered store failed.
    DiskLRU(DiskLRUError),
    /// Reclaiming a backing file failed for a reason other than its absence.
    IO(std::io::Error),
    /// Every entry was evicted and the new file still did not fit.
    InsufficientCapacity,
}

pub type LRUResult<T> = Result<T, LRUError>;

impl LRUError {
    /// Wraps an error of the ordered store.
    pub fn from_store(e: disklru::Error) -> (r: LRUError)
        ensures
            r is DiskLRU,
    {
        LRUError::DiskLRU(DiskLRUError(e))
    }
}

} // verus!
