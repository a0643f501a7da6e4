//! Digests: a fingerprint together with the declared length of the content.

use crate::fingerprint::Fingerprint;
use vstd::prelude::*;
use vstd::std_specs::cmp::PartialEqSpecImpl;

verus! {

/// The bytes of the SHA-256 fingerprint of the empty byte string.
pub const EMPTY_FINGERPRINT_BYTES: [u8; 32] = [
    0xe3, 0xb0, 0xc4, 0x42, 0x98, 0xfc, 0x1c, 0x14, 0x9a, 0xfb, 0xf4, 0xc8, 0x99, 0x6f, 0xb9, 0x24,
    0x27, 0xae, 0x41, 0xe4, 0x64, 0x9b, 0x93, 0x4c, 0xa4, 0x95, 0x99, 0x1b, 0x78, 0x52, 0xb8, 0x55,
];

/// The SHA-256 fingerprint of the empty byte string.
pub open spec fn empty_fingerprint() -> Fingerprint {
    Fingerprint(EMPTY_FINGERPRINT_BYTES)
}

/// A fingerprint and the number of bytes of the content it identifies.
#[derive(Clone, Copy, Debug, Eq, Hash)]
pub struct Digest {
    pub hash: Fingerprint,
    pub size_bytes: u64,
}

/// The digest of the empty byte string.
pub open spec fn empty_digest() -> Digest {
    Digest { hash: empty_fingerprint(), size_bytes: 0 }
}

impl PartialEq for Digest {
    fn eq(&self, other: &Digest) -> (r: bool) {
        self.hash == other.hash && self.size_bytes == other.size_bytes
    }
}

impl PartialEqSpecImpl for Digest {
    open spec fn obeys_eq_spec() -> bool {
        true
    }

    open spec fn eq_spec(&self, other: &Digest) -> bool {
        *self == *other
    }
}

impl Digest {
    pub fn empty() -> (digest: Digest)
        ensures
            digest == empty_digest(),
    {
        Digest { hash: Fingerprint(EMPTY_FINGERPRINT_BYTES), size_bytes: 0 }
    }

    pub fn is_empty(&self) -> (r: bool)
        ensures
            r == (*self == empty_digest()),
    {
        *self == Digest::empty()
    }
}

} // verus!
