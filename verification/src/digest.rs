//! The two cryptographic digests the engine uses.
//!
//! SHA-256 commits to a secret (the hashlock) and normalizes principal
//! encodings to 32 bytes; Keccak-256 turns the packed escrow parameters
//! into the escrow identifier. Both are pure functions of their input
//! bytes alone, so each is given an uninterpreted name that the rest of
//! the library's contracts speak of; the wrappers below relate the
//! executable calls to those names.

use vstd::prelude::*;
use sha2::Digest;

verus! {

/// The SHA-256 digest of a byte string.
pub uninterp spec fn sha256_of(data: Seq<u8>) -> Seq<u8>;

/// The Keccak-256 digest of a byte string.
pub uninterp spec fn keccak256_of(data: Seq<u8>) -> Seq<u8>;

/// Relies on `sha2::Sha256::digest`: the SHA-256 digest, 32 bytes,
/// determined by the input bytes alone.
#[verifier::external_body]
pub fn sha256_digest(data: &Vec<u8>) -> (r: Vec<u8>)
    ensures
        r@ == sha256_of(data@),
        r@.len() == 32,
{
    sha2::Sha256::digest(data.as_slice()).to_vec()
}

/// Relies on `sha3::Keccak256::digest`: the Keccak-256 digest, 32 bytes,
/// determined by the input bytes alone.
#[verifier::external_body]
pub fn keccak256_digest(data: &Vec<u8>) -> (r: Vec<u8>)
    ensures
        r@ == keccak256_of(data@),
        r@.len() == 32,
{
    sha3::Keccak256::digest(data.as_slice()).to_vec()
}

} // verus!
