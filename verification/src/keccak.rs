//! The hash function of the commitment: Keccak-256, as the Solana program
//! library computes it.

use anchor_lang::solana_program::keccak::hashv;
use vstd::prelude::*;

verus! {

/// The Keccak-256 digest of a byte string.
pub uninterp spec fn keccak256(data: Seq<u8>) -> [u8; 32];

/// Hashes two digests, one after the other, with
/// `anchor_lang::solana_program::keccak::hashv`.
///
/// Trusted: `hashv` feeds its slices to one Keccak-256 hasher in the order
/// given and returns the 32 bytes of the finished hash, so the result is the
/// digest of `first` followed by `second`. Nothing is proved of the digest
/// beyond its being a function of those 64 bytes.
#[verifier::external_body]
pub(crate) fn keccak_pair(first: &[u8; 32], second: &[u8; 32]) -> (digest: [u8; 32])
    ensures
        digest == keccak256(first@ + second@),
{
    hashv(&[first, second]).0
}

} // verus!
