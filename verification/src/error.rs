//! The closed taxonomy of failures produced by dispatching a request.

use vstd::prelude::*;

verus! {

/// Every fallible operation of the library returns the first error it meets,
/// unchanged; there is no retry or local recovery anywhere in the core.
#[derive(Clone, Copy, Debug, PartialEq, Eq, Structural)]
pub enum KintoError {
    /// A connection or I/O failure before any HTTP semantics applied.
    TransportError,
    /// A success status whose body was not valid JSON.
    MalformedResponse,
    /// Any other non-success status, carrying the status code; this covers
    /// not-found as well as server errors, without further subdivision.
    RequestError(u16),
    /// Status 412: a conditional write lost a concurrency race.
    PreconditionFailed,
    /// Status 304: a conditional read found no change.
    NotModified,
}

} // verus!
