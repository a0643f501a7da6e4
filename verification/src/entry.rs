//! The kinds of entry a store holds, and an entry's age as the eviction engine sees it.

use crate::digest::Digest;
use crate::fingerprint::Fingerprint;
use vstd::prelude::*;

verus! {

/// The namespace an entry belongs to. It says nothing about the tier that holds the entry.
#[derive(Clone, Copy, Debug, PartialEq, Eq, Hash, Structural)]
pub enum EntryType {
    Directory,
    File,
}

/// What `shrink` does once it has evicted what it can.
#[derive(Clone, Copy, Debug, PartialEq, Eq, Hash, Structural)]
pub enum ShrinkBehavior {
    /// Only evict.
    Fast,
    /// Evict, then compact the file database.
    Compact,
}

/// A stored fingerprint with its size and the time since its lease ran out.
///
/// `expired_seconds_ago == 0` means that the entry is still leased.
#[derive(Clone, Copy, Debug, Eq, Hash)]
pub struct AgedFingerprint {
    pub expired_seconds_ago: u64,
    pub fingerprint: Fingerprint,
    pub size_bytes: u64,
}

impl PartialEq for AgedFingerprint {
    fn eq(&self, other: &AgedFingerprint) -> (r: bool) {
        self.expired_seconds_ago == other.expired_seconds_ago && self.fingerprint
            == other.fingerprint && self.size_bytes == other.size_bytes
    }
}

impl vstd::std_specs::cmp::PartialEqSpecImpl for AgedFingerprint {
    open spec fn obeys_eq_spec() -> bool {
        true
    }

    open spec fn eq_spec(&self, other: &AgedFingerprint) -> bool {
        *self == *other
    }
}

impl AgedFingerprint {
    /// The digest of the entry: its fingerprint and size, without the age.
    pub open spec fn spec_digest(self) -> Digest {
        Digest { hash: self.fingerprint, size_bytes: self.size_bytes }
    }

    /// The digest of the entry: its fingerprint and size, without the age.
    #[verifier::when_used_as_spec(spec_digest)]
    pub fn digest(self) -> (digest: Digest)
        ensures
            digest == self.spec_digest(),
    {
        Digest { hash: self.fingerprint, size_bytes: self.size_bytes }
    }

    /// Whether the entry's lease has run out, so that it may be evicted.
    pub open spec fn spec_is_expired(self) -> bool {
        self.expired_seconds_ago > 0
    }

    /// Whether the entry's lease has run out, so that it may be evicted.
    #[verifier::when_used_as_spec(spec_is_expired)]
    pub fn is_expired(self) -> (expired: bool)
        ensures
            expired == self.spec_is_expired(),
    {
        self.expired_seconds_ago > 0
    }
}

} // verus!
