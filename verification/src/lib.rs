//! Verified core of a Docker Registry v2 command-line client.
//!
//! The library decodes the registry's JSON response shapes, derives
//! per-image metadata (image id, creation time, total layer size), and
//! decides the outcome of a delete-by-digest operation.  All HTTP traffic
//! is performed by the surrounding application, which hands the library
//! raw response bodies, headers and status codes as plain values.

use vstd::prelude::*;

pub mod decode;
pub mod json;
pub mod registry;
pub mod times;
pub mod transport;

verus! {

/// Why a response body was rejected.
#[derive(Debug, PartialEq, Eq, Structural)]
pub enum DecodeError {
    /// The body is not a JSON document of the expected shape.
    Body,
    /// The content digest has no `:` separator or fewer than twelve
    /// characters after the last one.
    Digest,
}

/// A status code is a success exactly when it lies in the 2xx range.
pub open spec fn is_success_status(status: u16) -> bool {
    200 <= status <= 299
}

/// Decides whether a liveness probe of the registry succeeded.
pub fn probe_ok(status: u16) -> (r: bool)
    ensures
        r == is_success_status(status),
{
    200 <= status && status <= 299
}

} // verus!
