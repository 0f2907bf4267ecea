//! The Blake2 digests that the ledger derives identifiers and genetic codes from.

use vstd::prelude::*;

verus! {

/// The 128-bit Blake2b digest of `data`, as `sp_io::hashing::blake2_128` computes it.
pub uninterp spec fn blake2_128_digest(data: Seq<u8>) -> Seq<u8>;

/// The 256-bit Blake2b digest of `data`, as `sp_io::hashing::blake2_256` computes it.
pub uninterp spec fn blake2_256_digest(data: Seq<u8>) -> Seq<u8>;

/// Calls `sp_io::hashing::blake2_128`. Trusted: the 16 bytes returned are the
/// digest of `data` and depend on nothing else.
#[verifier::external_body]
pub(crate) fn blake2_128(data: &[u8]) -> (digest: [u8; 16])
    ensures
        digest@ == blake2_128_digest(data@),
{
    sp_io::hashing::blake2_128(data)
}

/// Calls `sp_io::hashing::blake2_256`. Trusted: the 32 bytes returned are the
/// digest of `data` and depend on nothing else.
#[verifier::external_body]
pub(crate) fn blake2_256(data: &[u8]) -> (digest: [u8; 32])
    ensures
        digest@ == blake2_256_digest(data@),
{
    sp_io::hashing::blake2_256(data)
}

} // verus!
