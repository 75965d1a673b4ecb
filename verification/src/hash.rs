//! The hash function that binds a colour to its secret.

use crypto_hash::{digest, Algorithm};
use vstd::prelude::*;

verus! {

/// The SHA-256 digest of a byte string.
pub uninterp spec fn sha256(data: Seq<u8>) -> Seq<u8>;

/// Calls `crypto_hash::digest` with `Algorithm::SHA256`.
///
/// Trusted, not proved: the bytes that come back are the SHA-256 digest of
/// `data`, which depends on `data` alone.
#[verifier::external_body]
pub(crate) fn digest_sha256(data: &[u8]) -> (out: Vec<u8>)
    ensures
        out@ == sha256(data@),
{
    digest(Algorithm::SHA256, data)
}

/// Whether two byte strings hold the same bytes, each of them compared.
pub fn same_bytes(left: &[u8], right: &[u8]) -> (same: bool)
    ensures
        same == (left@ == right@),
{
    if left.len() != right.len() {
        return false;
    }
    let mut i: usize = 0;
    while i < left.len()
        invariant
            left@.len() == right@.len(),
            i <= left@.len(),
            forall|k: int| 0 <= k < i ==> left@[k] == right@[k],
        decreases left@.len() - i,
    {
        if left[i] != right[i] {
            return false;
        }
        i += 1;
    }
    assert(left@ =~= right@);
    true
}

} // verus!
