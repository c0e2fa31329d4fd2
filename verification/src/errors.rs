//! The domain error taxonomy of the storage gateway.
//!
//! Backend-specific error values are mapped to this taxonomy once, at
//! the gateway boundary; nothing above that layer inspects
//! backend-specific error shapes.

use vstd::prelude::*;

verus! {

/// What a storage operation can fail with, independent of the backend
/// SDK's vocabulary.
#[derive(PartialEq, Eq, Structural, Debug, Clone, Copy)]
pub enum StorageError {
    /// The key does not exist.
    NotFound,
    /// The backend refused the request (size or type mismatch, bucket
    /// policy).
    Rejected,
    /// The connection dropped or timed out during a transfer; a short
    /// read is a failure, not an end-of-object.
    TransportInterrupted,
    /// The backend is unreachable or misconfigured.
    Unavailable,
}

/// What the gateway reads of a backend failure, as plain values: the
/// classification the unverified glue extracts from the SDK's error
/// before handing it in.
#[derive(PartialEq, Eq, Structural, Debug, Clone, Copy)]
pub enum BackendFault {
    /// The service answered that the key does not exist.
    MissingKey,
    /// The service refused the request outright.
    Refused,
    /// The request timed out in flight.
    TimedOut,
    /// The connection dropped mid-transfer.
    Disconnected,
    /// The backend could not be reached at all.
    Unreachable,
}

/// The one mapping from backend failure kinds to the domain taxonomy.
pub open spec fn spec_fault_error(f: BackendFault) -> StorageError {
    match f {
        BackendFault::MissingKey => StorageError::NotFound,
        BackendFault::Refused => StorageError::Rejected,
        BackendFault::TimedOut => StorageError::TransportInterrupted,
        BackendFault::Disconnected => StorageError::TransportInterrupted,
        BackendFault::Unreachable => StorageError::Unavailable,
    }
}

/// Map a backend failure to the domain error it surfaces as.
pub fn map_backend_fault(f: BackendFault) -> (e: StorageError)
    ensures
        e == spec_fault_error(f),
{
    match f {
        BackendFault::MissingKey => StorageError::NotFound,
        BackendFault::Refused => StorageError::Rejected,
        BackendFault::TimedOut => StorageError::TransportInterrupted,
        BackendFault::Disconnected => StorageError::TransportInterrupted,
        BackendFault::Unreachable => StorageError::Unavailable,
    }
}

} // verus!
