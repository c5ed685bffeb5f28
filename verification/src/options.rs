//! The bit-set of options accepted when creating a service-bound connection.

use vstd::prelude::*;

verus! {

/// Bit of `ConnectionOptions` marking the caller as the service's listener.
pub const LISTENER_BIT: u64 = 1;

/// Bit of `ConnectionOptions` marking the service as registered by a
/// system-level daemon rather than a user-level agent.
pub const PRIVILEGED_BIT: u64 = 2;

/// A bit-set with two independent flags, passed through to the native
/// service-creation primitive.
///
/// PRIVILEGED is a no-op whenever LISTENER is set, so the bits that reach the
/// native runtime are the `effective_bits`, with PRIVILEGED masked out under
/// LISTENER.
#[derive(Clone, Copy, Debug, PartialEq, Eq, Structural, Default)]
pub struct ConnectionOptions {
    pub bits: u64,
}

impl ConnectionOptions {
    /// The empty bit-set.
    pub fn empty() -> (r: Self)
        ensures
            r.bits == 0,
    {
        ConnectionOptions { bits: 0 }
    }

    /// The LISTENER flag alone.
    pub fn listener() -> (r: Self)
        ensures
            r.bits == LISTENER_BIT,
    {
        ConnectionOptions { bits: LISTENER_BIT }
    }

    /// The PRIVILEGED flag alone.
    pub fn privileged() -> (r: Self)
        ensures
            r.bits == PRIVILEGED_BIT,
    {
        ConnectionOptions { bits: PRIVILEGED_BIT }
    }

    /// Whether the LISTENER flag is set.
    pub open spec fn is_listener(self) -> bool {
        self.bits & LISTENER_BIT == LISTENER_BIT
    }

    /// The union of two bit-sets.
    pub fn union(self, other: Self) -> (r: Self)
        ensures
            r.bits == self.bits | other.bits,
    {
        ConnectionOptions { bits: self.bits | other.bits }
    }

    /// The bits handed to the native creation primitive: PRIVILEGED is a
    /// no-op under LISTENER, so it is masked out there.
    pub open spec fn effective_bits(self) -> u64 {
        if self.is_listener() {
            self.bits & !PRIVILEGED_BIT
        } else {
            self.bits
        }
    }

    /// Computes `effective_bits`.
    pub fn to_effective_bits(self) -> (r: u64)
        ensures
            r == self.effective_bits(),
    {
        if self.bits & LISTENER_BIT == LISTENER_BIT {
            self.bits & !PRIVILEGED_BIT
        } else {
            self.bits
        }
    }
}

/// LISTENER|PRIVILEGED reaches the native runtime exactly as LISTENER alone
/// does: PRIVILEGED is a no-op when combined with LISTENER.
pub proof fn lemma_privileged_noop_under_listener()
    ensures
        (ConnectionOptions { bits: LISTENER_BIT | PRIVILEGED_BIT }).effective_bits()
            == (ConnectionOptions { bits: LISTENER_BIT }).effective_bits(),
{
    assert(1u64 | 2u64 == 3u64) by (bit_vector);
    assert(3u64 & 1u64 == 1u64) by (bit_vector);
    assert(3u64 & !2u64 == 1u64) by (bit_vector);
    assert(1u64 & 1u64 == 1u64) by (bit_vector);
    assert(1u64 & !2u64 == 1u64) by (bit_vector);
}

} // verus!
