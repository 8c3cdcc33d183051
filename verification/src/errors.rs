//! The error kinds a handler can raise, and the uniform error-to-status
//! mapping under which they surface to the host.

use vstd::prelude::*;

verus! {

/// Why a handler refused an invocation.
///
/// Every error is terminal for the invocation that raised it: it surfaces
/// verbatim to the external caller, and no partial state change is ever
/// committed alongside it.
#[derive(Clone, Copy, Debug, PartialEq, Eq, Structural)]
pub enum RecordError {
    /// The target address already holds a record.
    AlreadyAllocated,
    /// No record exists at the target address.
    NotFound,
    /// Stored bytes fail the discriminator or size checks of the layout.
    CorruptRecord,
    /// A submitted payload exceeds the record type's declared maximum.
    PayloadTooLong,
    /// The signer/owner requirement of the invocation is not met.
    Unauthorized,
    /// The target record is not writable in the caller's context.
    NotMutable,
    /// The funding identity cannot cover the allocation cost.
    InsufficientFunds,
}

/// The status number under which each error kind surfaces to the host.
pub open spec fn spec_status_code(e: RecordError) -> u32 {
    match e {
        RecordError::AlreadyAllocated => 1,
        RecordError::NotFound => 2,
        RecordError::CorruptRecord => 3,
        RecordError::PayloadTooLong => 4,
        RecordError::Unauthorized => 5,
        RecordError::NotMutable => 6,
        RecordError::InsufficientFunds => 7,
    }
}

/// Distinct error kinds surface as distinct status numbers, so the host
/// can recover the kind from the status.
pub proof fn lemma_status_codes_distinct(a: RecordError, b: RecordError)
    requires
        a != b,
    ensures
        spec_status_code(a) != spec_status_code(b),
{
}

/// Maps an error kind to its status number.
pub fn status_code(e: RecordError) -> (code: u32)
    ensures
        code == spec_status_code(e),
{
    match e {
        RecordError::AlreadyAllocated => 1,
        RecordError::NotFound => 2,
        RecordError::CorruptRecord => 3,
        RecordError::PayloadTooLong => 4,
        RecordError::Unauthorized => 5,
        RecordError::NotMutable => 6,
        RecordError::InsufficientFunds => 7,
    }
}

} // verus!
