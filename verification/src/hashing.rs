//! The one-way hash the registry derives genomes with.

use vstd::prelude::*;

verus! {

/// The 128-bit BLAKE2b digest of `data`.
///
/// The digest is a fixed function of the bytes hashed: equal inputs give equal
/// digests, everywhere and always. Nothing else about it is assumed.
pub uninterp spec fn blake2_128_digest(data: Seq<u8>) -> [u8; 16];

/// Hashes `data` with `sp_io::hashing::blake2_128`.
///
/// Trusted: the call is taken to return the 128-bit BLAKE2b digest of exactly
/// the bytes passed in, for inputs of any length, without failing.
#[verifier::external_body]
pub(crate) fn blake2_128(data: &[u8]) -> (digest: [u8; 16])
    ensures
        digest == blake2_128_digest(data@),
{
    sp_io::hashing::blake2_128(data)
}

} // verus!
