//! The SHA-256 digest, computed by the `sha2` crate.

use sha2::{Digest, Sha256};
use vstd::prelude::*;

verus! {

/// The SHA-256 digest of a byte string, as FIPS 180-4 defines it: 32 bytes
/// that depend on nothing but the input.
pub uninterp spec fn sha256(data: Seq<u8>) -> [u8; 32];

/// Calls `sha2::Sha256::digest` and hands the 32 bytes back as a plain array.
/// Nothing is proved of this call: the contract takes the crate's word that it
/// computes SHA-256 of exactly the bytes given.
#[verifier::external_body]
pub(crate) fn sha256_digest(data: &[u8]) -> (out: [u8; 32])
    ensures
        out == sha256(data@),
{
    Sha256::digest(data).into()
}

} // verus!
