//! Blobs as the callers of the store hold them: `bytes::Bytes`.
//!
//! Verus sees nothing inside a `Bytes`. What this module states of it is taken on trust from
//! the `bytes` crate.

use bytes::Bytes;
use vstd::prelude::*;

verus! {

#[verifier::external_type_specification]
#[verifier::external_body]
pub struct ExBytes(Bytes);

/// The bytes that a `Bytes` holds.
pub uninterp spec fn bytes_content(bytes: Bytes) -> Seq<u8>;

/// `Bytes::len` of the `bytes` crate: the number of bytes that the value holds.
pub assume_specification[ Bytes::len ](bytes: &Bytes) -> (len: usize)
    ensures
        len == bytes_content(*bytes).len(),
;

} // verus!
