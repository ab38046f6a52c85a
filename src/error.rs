use vstd::prelude::*;

verus! {

/// Every way in which an operation on a review record can fail.
#[derive(Debug, Clone, Copy, PartialEq, Eq, Structural)]
pub enum ReviewError {
    /// The author did not sign the invocation.
    MissingSignature,
    /// The target storage is not the address derived from the author and the title.
    InvalidAddress,
    /// The rating lies outside 1..=10.
    InvalidRating,
    /// The target storage already holds a record.
    AlreadyInitialized,
    /// The target storage holds no record yet.
    UninitializedAccount,
    /// The target storage belongs to another program.
    IllegalOwner,
    /// The storage allocator could not allocate the target storage.
    AllocationFailed,
    /// The instruction payload is malformed or names no known operation.
    InvalidInstruction,
    /// The stored bytes are too short for the record they announce.
    DecodeError,
    /// The encoded record does not fit in the storage reserved for it.
    RecordTooLarge,
}

} // verus!
