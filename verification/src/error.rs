//! Error kinds surfaced by connection construction and messaging.

use vstd::prelude::*;

verus! {

/// Everything a synchronous connection operation can fail with.
///
/// Transport-level failures are not modelled here: the native runtime reports
/// them through event delivery, never through these variants.
#[derive(Debug, PartialEq, Eq)]
pub enum ConnectionError {
    /// The native runtime returned a null handle while creating a connection
    /// bound to this name.
    CreationFailed(String),
    /// The native runtime could not allocate the envelope object for a send.
    AllocationFailed,
    /// The codec could not serialize the outgoing value. The closed value
    /// type is always serializable, so the library's own operations never
    /// produce this; it is part of the error surface for integrations that
    /// carry other payload shapes.
    EncodingFailed,
    /// An inbound envelope was malformed or missed the payload field.
    DecodingFailed,
}

impl ConnectionError {
    /// True exactly when this is a creation failure carrying `name`.
    pub open spec fn is_creation_failed_for(self, name: Seq<char>) -> bool {
        match self {
            ConnectionError::CreationFailed(n) => n@ == name,
            _ => false,
        }
    }
}

} // verus!
