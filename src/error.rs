use vstd::prelude::*;

verus! {

/// Why a storage operation failed.
#[derive(Debug)]
pub enum Error {
    /// No object is stored at the requested path.
    NotFound,
    /// The stored object is larger than the caller's cap of `max_size` bytes.
    SizeExceeded { max_size: usize },
    /// The blob at `index` of a batch has a malformed path; nothing was staged.
    InvalidPath { index: usize },
    /// A commit wrote the paths in `committed`, in order, and then failed with `cause`.
    PartialFailure { committed: Vec<String>, cause: String },
    /// The substrate failed; nothing is known of what it applied.
    Transient { message: String },
}

} // verus!
