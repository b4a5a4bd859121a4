//! The Keccak-256 hash function.

use vstd::prelude::*;

verus! {

/// The Keccak-256 digest of a byte string.
pub uninterp spec fn keccak256(input: Seq<u8>) -> [u8; 32];

/// Computes the Keccak-256 digest of `input` with `tiny_keccak::Keccak`:
/// a hasher made by `Keccak::v256`, fed the whole input by one `update`, and
/// read out into 32 bytes by `finalize`. The digest depends on the input
/// bytes alone, which is all the contract claims of it.
#[verifier::external_body]
pub(crate) fn keccak256_of(input: &[u8]) -> (digest: [u8; 32])
    ensures
        digest == keccak256(input@),
{
    let mut hasher = tiny_keccak::Keccak::v256();
    tiny_keccak::Hasher::update(&mut hasher, input);
    let mut digest = [0u8; 32];
    tiny_keccak::Hasher::finalize(hasher, &mut digest);
    digest
}

} // verus!
