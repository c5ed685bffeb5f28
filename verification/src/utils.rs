//! Host operating-system version value and the comparison that decides
//! which of two equivalent native activation primitives is used.

use vstd::prelude::*;

verus! {

/// The operating-system family of the host process. The family decides which
/// threshold `at_least` compares the cached version against.
#[derive(Clone, Copy, Debug, PartialEq, Eq, Structural)]
pub enum OsFamily {
    Mac,
    Ios,
}

/// A three-component operating-system version together with the host family.
/// The host integration computes this once per process and never changes it.
#[derive(Clone, Copy, Debug, PartialEq, Eq, Structural)]
pub struct NSOperatingSystemVersion {
    pub major: usize,
    pub minor: usize,
    pub patch: usize,
    pub family: OsFamily,
}

impl NSOperatingSystemVersion {
    /// Builds the version record from its components.
    pub fn new(major: usize, minor: usize, patch: usize, family: OsFamily) -> (r: Self)
        ensures
            r == (NSOperatingSystemVersion { major, minor, patch, family }),
    {
        NSOperatingSystemVersion { major, minor, patch, family }
    }

    /// Lexicographic (major, then minor) comparison against the threshold
    /// that applies to this version's family; patch is never compared.
    pub open spec fn at_least_spec(
        self,
        mac_version: (usize, usize),
        ios_version: (usize, usize),
    ) -> bool {
        let threshold = if self.family == OsFamily::Mac {
            mac_version
        } else {
            ios_version
        };
        self.major > threshold.0 || (self.major == threshold.0 && self.minor >= threshold.1)
    }

    /// Returns whether this version reaches the threshold for its family:
    /// `mac_version` on the mac family, `ios_version` otherwise.
    pub fn at_least(
        &self,
        mac_version: (usize, usize),
        ios_version: (usize, usize),
    ) -> (r: bool)
        ensures
            r == self.at_least_spec(mac_version, ios_version),
    {
        let threshold = if self.family == OsFamily::Mac {
            mac_version
        } else {
            ios_version
        };
        self.major > threshold.0 || (self.major == threshold.0 && self.minor >= threshold.1)
    }
}

} // verus!
