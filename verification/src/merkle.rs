//! Recomputing a Merkle root from one leaf and its sibling digests.
//!
//! At each level the running digest and the sibling are hashed smaller first,
//! so that a proof need not say on which side a sibling stands.

use crate::digest::{
    digest_eq, digest_le, lex_le, lemma_order_antisymmetric, lemma_order_total,
};
use crate::keccak::{keccak256, keccak_pair};
use vstd::prelude::*;

verus! {

/// The smaller of two digests in lexicographic byte order.
pub open spec fn digest_min(a: [u8; 32], b: [u8; 32]) -> [u8; 32] {
    if lex_le(a@, b@) {
        a
    } else {
        b
    }
}

/// The larger of two digests in lexicographic byte order.
pub open spec fn digest_max(a: [u8; 32], b: [u8; 32]) -> [u8; 32] {
    if lex_le(a@, b@) {
        b
    } else {
        a
    }
}

/// The 64 bytes that are hashed for a pair: the smaller digest, then the larger.
pub open spec fn sorted_concat(a: [u8; 32], b: [u8; 32]) -> Seq<u8> {
    digest_min(a, b)@ + digest_max(a, b)@
}

/// The parent digest of two sibling digests.
pub open spec fn combine(a: [u8; 32], b: [u8; 32]) -> [u8; 32] {
    keccak256(sorted_concat(a, b))
}

/// The digest reached from `leaf` by combining it with each sibling of
/// `proof` in turn, the first sibling being the one next to the leaf.
pub open spec fn merkle_fold(leaf: [u8; 32], proof: Seq<[u8; 32]>) -> [u8; 32]
    decreases proof.len(),
{
    if proof.len() == 0 {
        leaf
    } else {
        combine(merkle_fold(leaf, proof.drop_last()), proof.last())
    }
}

/// Sorting makes the hashed bytes independent of the order in which the two
/// digests are given.
pub proof fn lemma_sorted_concat_symmetric(a: [u8; 32], b: [u8; 32])
    ensures
        digest_min(a, b) == digest_min(b, a),
        digest_max(a, b) == digest_max(b, a),
        sorted_concat(a, b) == sorted_concat(b, a),
{
    lemma_order_total(a@, b@);
    if lex_le(a@, b@) && lex_le(b@, a@) {
        lemma_order_antisymmetric(a@, b@);
        assert(a =~= b);
    }
}

/// Combining is commutative: the parent of two siblings is the same
/// whichever of them is the running digest and whichever the sibling.
pub proof fn lemma_combine_commutative(a: [u8; 32], b: [u8; 32])
    ensures
        combine(a, b) == combine(b, a),
{
    lemma_sorted_concat_symmetric(a, b);
}

/// Folding one more sibling onto a proof combines it with what the proof led
/// to so far.
pub proof fn lemma_fold_push(leaf: [u8; 32], proof: Seq<[u8; 32]>, sibling: [u8; 32])
    ensures
        merkle_fold(leaf, proof.push(sibling)) == combine(merkle_fold(leaf, proof), sibling),
{
    let longer = proof.push(sibling);
    assert(longer.drop_last() =~= proof);
    assert(longer.last() == sibling);
}

/// Puts two digests in hashing order: the smaller first.
pub fn order_pair(a: [u8; 32], b: [u8; 32]) -> (pair: ([u8; 32], [u8; 32]))
    ensures
        pair.0 == digest_min(a, b),
        pair.1 == digest_max(a, b),
{
    if digest_le(&a, &b) {
        (a, b)
    } else {
        (b, a)
    }
}

/// The parent digest of two siblings, whichever of them is given first.
pub fn hash_sorted_pair(a: [u8; 32], b: [u8; 32]) -> (parent: [u8; 32])
    ensures
        parent == combine(a, b),
{
    let (low, high) = order_pair(a, b);
    keccak_pair(&low, &high)
}

/// Recomputes the root to which `leaf` and its sibling path `proof` lead.
pub fn compute_root(proof: &Vec<[u8; 32]>, leaf: [u8; 32]) -> (computed: [u8; 32])
    ensures
        computed == merkle_fold(leaf, proof@),
{
    let mut computed: [u8; 32] = leaf;
    let mut i: usize = 0;
    while i < proof.len()
        invariant
            0 <= i <= proof.len(),
            computed == merkle_fold(leaf, proof@.take(i as int)),
        decreases proof.len() - i,
    {
        proof {
            let next = proof@.take(i + 1);
            assert(next.drop_last() =~= proof@.take(i as int));
            assert(next.last() == proof@[i as int]);
        }
        computed = hash_sorted_pair(computed, proof[i]);
        i += 1;
    }
    proof {
        assert(proof@.take(i as int) =~= proof@);
    }
    computed
}

/// Whether `leaf` with `proof` leads to `root`.
pub fn verify_proof(root: &[u8; 32], proof: &Vec<[u8; 32]>, leaf: [u8; 32]) -> (valid: bool)
    ensures
        valid == (merkle_fold(leaf, proof@) == *root),
{
    let computed = compute_root(proof, leaf);
    digest_eq(&computed, root)
}

} // verus!
