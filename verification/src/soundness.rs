//! What a forged claim would take. A proof that has been tampered with in one
//! place is refused, unless the tampering has found two different inputs that
//! Keccak-256 hashes to one digest; the statements below name the level at
//! which such a pair would have to occur.

use crate::error::ErrorCode;
use crate::keccak::keccak256;
use crate::ledger::{claim_outcome, ClaimData};
use crate::merkle::{
    digest_max, digest_min, lemma_sorted_concat_symmetric, merkle_fold, sorted_concat,
};
use anchor_lang::prelude::Pubkey;
use vstd::prelude::*;

verus! {

/// The 64 bytes that are hashed at `level` when `proof` is folded onto `leaf`.
pub open spec fn hashed_at(leaf: [u8; 32], proof: Seq<[u8; 32]>, level: int) -> Seq<u8> {
    sorted_concat(merkle_fold(leaf, proof.take(level)), proof[level])
}

/// Two folds hash different bytes to the same digest at `level`.
pub open spec fn collide_at(
    leaf_a: [u8; 32],
    proof_a: Seq<[u8; 32]>,
    leaf_b: [u8; 32],
    proof_b: Seq<[u8; 32]>,
    level: int,
) -> bool {
    &&& 0 <= level < proof_a.len()
    &&& level < proof_b.len()
    &&& hashed_at(leaf_a, proof_a, level) != hashed_at(leaf_b, proof_b, level)
    &&& keccak256(hashed_at(leaf_a, proof_a, level)) == keccak256(
        hashed_at(leaf_b, proof_b, level),
    )
}

/// Two folds hash different bytes to the same digest at some level.
pub open spec fn collide(
    leaf_a: [u8; 32],
    proof_a: Seq<[u8; 32]>,
    leaf_b: [u8; 32],
    proof_b: Seq<[u8; 32]>,
) -> bool {
    exists|level: int| collide_at(leaf_a, proof_a, leaf_b, proof_b, level)
}

/// The bytes hashed for a pair give the pair back: its smaller digest is the
/// first half and its larger one the second.
proof fn lemma_sorted_concat_halves(a: [u8; 32], b: [u8; 32])
    ensures
        sorted_concat(a, b).len() == 64,
        sorted_concat(a, b).subrange(0, 32) == digest_min(a, b)@,
        sorted_concat(a, b).subrange(32, 64) == digest_max(a, b)@,
{
    let low = digest_min(a, b)@;
    let high = digest_max(a, b)@;
    assert((low + high).subrange(0, 32) =~= low);
    assert((low + high).subrange(32, 64) =~= high);
}

/// With one digest of a pair held fixed, the hashed bytes tell the other
/// digest: no two different partners give the same 64 bytes.
proof fn lemma_sorted_concat_tells_partner(a: [u8; 32], b: [u8; 32], sibling: [u8; 32])
    requires
        sorted_concat(a, sibling) == sorted_concat(b, sibling),
    ensures
        a == b,
{
    lemma_sorted_concat_halves(a, sibling);
    lemma_sorted_concat_halves(b, sibling);
    assert(digest_min(a, sibling)@ == digest_min(b, sibling)@);
    assert(digest_max(a, sibling)@ == digest_max(b, sibling)@);
    assert(digest_min(a, sibling) =~= digest_min(b, sibling));
    assert(digest_max(a, sibling) =~= digest_max(b, sibling));
}

/// The fold up to and including `level` combines the fold below it with the
/// sibling at `level`.
proof fn lemma_fold_step(leaf: [u8; 32], proof: Seq<[u8; 32]>, level: int)
    requires
        0 <= level < proof.len(),
    ensures
        merkle_fold(leaf, proof.take(level + 1)) == keccak256(hashed_at(leaf, proof, level)),
{
    let upto = proof.take(level + 1);
    assert(upto.drop_last() =~= proof.take(level));
    assert(upto.last() == proof[level]);
}

/// Two folds of one length that differ below `level` and use the same
/// siblings from `level` on either end in different digests or collide on
/// the way.
proof fn lemma_divergence_persists(
    leaf_a: [u8; 32],
    proof_a: Seq<[u8; 32]>,
    leaf_b: [u8; 32],
    proof_b: Seq<[u8; 32]>,
    level: int,
)
    requires
        proof_a.len() == proof_b.len(),
        0 <= level <= proof_a.len(),
        forall|j: int| level <= j < proof_a.len() ==> proof_a[j] == proof_b[j],
        merkle_fold(leaf_a, proof_a.take(level)) != merkle_fold(leaf_b, proof_b.take(level)),
    ensures
        merkle_fold(leaf_a, proof_a) != merkle_fold(leaf_b, proof_b) || collide(
            leaf_a,
            proof_a,
            leaf_b,
            proof_b,
        ),
    decreases proof_a.len() - level,
{
    if level == proof_a.len() {
        assert(proof_a.take(level) =~= proof_a);
        assert(proof_b.take(level) =~= proof_b);
    } else {
        let below_a = merkle_fold(leaf_a, proof_a.take(level));
        let below_b = merkle_fold(leaf_b, proof_b.take(level));
        if hashed_at(leaf_a, proof_a, level) == hashed_at(leaf_b, proof_b, level) {
            lemma_sorted_concat_tells_partner(below_a, below_b, proof_a[level]);
        }
        lemma_fold_step(leaf_a, proof_a, level);
        lemma_fold_step(leaf_b, proof_b, level);
        if merkle_fold(leaf_a, proof_a.take(level + 1)) == merkle_fold(
            leaf_b,
            proof_b.take(level + 1),
        ) {
            assert(collide_at(leaf_a, proof_a, leaf_b, proof_b, level));
        } else {
            lemma_divergence_persists(leaf_a, proof_a, leaf_b, proof_b, level + 1);
        }
    }
}

/// Changing the leaf changes the recomputed root, unless the two folds
/// collide: a leaf other than the genuine one, presented with the genuine
/// proof, is refused as a mismatch or exhibits a Keccak-256 collision.
pub proof fn lemma_changed_leaf_is_refused(
    root: [u8; 32],
    slot: Option<ClaimData>,
    user: Pubkey,
    leaf: [u8; 32],
    proof: Seq<[u8; 32]>,
    changed: [u8; 32],
)
    requires
        merkle_fold(leaf, proof) == root,
        changed != leaf,
    ensures
        claim_outcome(root, slot, user, merkle_fold(changed, proof)) == Err::<
            ClaimData,
            ErrorCode,
        >(ErrorCode::MerkleProofMismatch) || collide(leaf, proof, changed, proof),
{
    assert(proof.take(0) =~= Seq::<[u8; 32]>::empty());
    lemma_divergence_persists(leaf, proof, changed, proof, 0);
}

/// Changing one sibling changes the recomputed root, unless the two folds
/// collide: the genuine leaf, presented with a proof in which one sibling
/// has been replaced by another digest, is refused as a mismatch or exhibits
/// a Keccak-256 collision.
pub proof fn lemma_changed_sibling_is_refused(
    root: [u8; 32],
    slot: Option<ClaimData>,
    user: Pubkey,
    leaf: [u8; 32],
    proof: Seq<[u8; 32]>,
    level: int,
    changed: [u8; 32],
)
    requires
        merkle_fold(leaf, proof) == root,
        0 <= level < proof.len(),
        changed != proof[level],
    ensures
        claim_outcome(
            root,
            slot,
            user,
            merkle_fold(leaf, proof.update(level, changed)),
        ) == Err::<ClaimData, ErrorCode>(ErrorCode::MerkleProofMismatch) || collide(
            leaf,
            proof,
            leaf,
            proof.update(level, changed),
        ),
{
    let forged = proof.update(level, changed);
    let below = merkle_fold(leaf, proof.take(level));
    assert(forged.take(level) =~= proof.take(level));
    if hashed_at(leaf, proof, level) == hashed_at(leaf, forged, level) {
        lemma_sorted_concat_symmetric(below, proof[level]);
        lemma_sorted_concat_symmetric(below, changed);
        lemma_sorted_concat_tells_partner(proof[level], changed, below);
    }
    lemma_fold_step(leaf, proof, level);
    lemma_fold_step(leaf, forged, level);
    if merkle_fold(leaf, proof.take(level + 1)) == merkle_fold(leaf, forged.take(level + 1)) {
        assert(collide_at(leaf, proof, leaf, forged, level));
    } else {
        lemma_divergence_persists(leaf, proof, leaf, forged, level + 1);
    }
}

} // verus!
