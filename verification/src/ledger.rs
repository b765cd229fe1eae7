//! The per-claimant record and the rule by which an entry is redeemed once.

use crate::error::ErrorCode;
use crate::digest::digest_eq;
use crate::merkle::{compute_root, merkle_fold};
use crate::registry::Event;
use anchor_lang::prelude::Pubkey;
use vstd::prelude::*;

verus! {

/// Whether one claimant has redeemed an entry of one campaign. A record goes
/// from unclaimed to claimed and never back.
#[derive(Clone, Copy, Debug, PartialEq, Eq)]
pub struct ClaimData {
    pub user: Pubkey,
    pub claimed: bool,
}

/// What the host hands to [`claim`]: the campaign, the record of this
/// claimant for this campaign if there is one yet, and the authenticated
/// caller.
#[derive(Clone, Copy, Debug, PartialEq, Eq)]
pub struct Claim {
    pub event: Event,
    pub claim_data: Option<ClaimData>,
    pub user: Pubkey,
}

/// A record is open while it is absent or not yet marked claimed.
pub open spec fn is_unclaimed(slot: Option<ClaimData>) -> bool {
    match slot {
        Some(record) => !record.claimed,
        None => true,
    }
}

/// The record that a successful claim leaves.
pub open spec fn claimed_by(user: Pubkey) -> ClaimData {
    ClaimData { user, claimed: true }
}

/// The decision on one claim, given the root that the claimant's leaf and
/// proof lead to: the proof is judged first, then the record.
pub open spec fn claim_outcome(
    root: [u8; 32],
    slot: Option<ClaimData>,
    user: Pubkey,
    computed: [u8; 32],
) -> Result<ClaimData, ErrorCode> {
    if computed != root {
        Err(ErrorCode::MerkleProofMismatch)
    } else if !is_unclaimed(slot) {
        Err(ErrorCode::AlreadyClaimed)
    } else {
        Ok(claimed_by(user))
    }
}

/// The record as a claim leaves it: replaced on success, untouched on failure.
pub open spec fn slot_after_claim(
    root: [u8; 32],
    slot: Option<ClaimData>,
    user: Pubkey,
    computed: [u8; 32],
) -> Option<ClaimData> {
    match claim_outcome(root, slot, user, computed) {
        Ok(record) => Some(record),
        Err(_) => slot,
    }
}

/// A claim succeeds exactly when the proof leads to the campaign's root and
/// the record is still open; a failed proof is reported before a spent record.
pub proof fn lemma_claim_succeeds_iff(
    root: [u8; 32],
    slot: Option<ClaimData>,
    user: Pubkey,
    leaf: [u8; 32],
    proof: Seq<[u8; 32]>,
)
    ensures
        claim_outcome(root, slot, user, merkle_fold(leaf, proof)) is Ok <==> merkle_fold(
            leaf,
            proof,
        ) == root && is_unclaimed(slot),
        claim_outcome(root, slot, user, merkle_fold(leaf, proof)) == Err::<ClaimData, ErrorCode>(
            ErrorCode::MerkleProofMismatch,
        ) <==> merkle_fold(leaf, proof) != root,
        claim_outcome(root, slot, user, merkle_fold(leaf, proof)) == Err::<ClaimData, ErrorCode>(
            ErrorCode::AlreadyClaimed,
        ) <==> merkle_fold(leaf, proof) == root && !is_unclaimed(slot),
{
}

/// An entry is redeemed at most once. After a claim has succeeded, the same
/// leaf and proof are refused as already claimed, and so is any other leaf
/// and proof that lead to the root; one that does not lead there is refused
/// as a mismatch. Whatever is presented, the record stays as the first claim
/// left it.
pub proof fn lemma_claim_at_most_once(
    root: [u8; 32],
    slot: Option<ClaimData>,
    user: Pubkey,
    leaf: [u8; 32],
    proof: Seq<[u8; 32]>,
    other_leaf: [u8; 32],
    other_proof: Seq<[u8; 32]>,
)
    requires
        claim_outcome(root, slot, user, merkle_fold(leaf, proof)) is Ok,
    ensures
        ({
            let after = slot_after_claim(root, slot, user, merkle_fold(leaf, proof));
            let again = merkle_fold(other_leaf, other_proof);
            &&& after == Some(claimed_by(user))
            &&& claim_outcome(root, after, user, merkle_fold(leaf, proof)) == Err::<
                ClaimData,
                ErrorCode,
            >(ErrorCode::AlreadyClaimed)
            &&& again == root ==> claim_outcome(root, after, user, again) == Err::<
                ClaimData,
                ErrorCode,
            >(ErrorCode::AlreadyClaimed)
            &&& again != root ==> claim_outcome(root, after, user, again) == Err::<
                ClaimData,
                ErrorCode,
            >(ErrorCode::MerkleProofMismatch)
            &&& slot_after_claim(root, after, user, again) == after
        }),
{
}

/// A claimed record stays claimed: no claim, by whomever and with whatever
/// proof, changes a record that is marked claimed, and none succeeds on it.
pub proof fn lemma_claimed_is_final(
    root: [u8; 32],
    record: ClaimData,
    user: Pubkey,
    computed: [u8; 32],
)
    requires
        record.claimed,
    ensures
        claim_outcome(root, Some(record), user, computed) is Err,
        slot_after_claim(root, Some(record), user, computed) == Some(record),
{
}

/// Whatever a claim decides, the record it leaves is never one that has gone
/// back from claimed to open.
pub proof fn lemma_claimed_is_monotonic(
    root: [u8; 32],
    slot: Option<ClaimData>,
    user: Pubkey,
    computed: [u8; 32],
)
    ensures
        !is_unclaimed(slot) ==> !is_unclaimed(slot_after_claim(root, slot, user, computed)),
        slot_after_claim(root, slot, user, computed) != slot ==> is_unclaimed(slot)
            && slot_after_claim(root, slot, user, computed) == Some(claimed_by(user)),
{
}

/// Campaigns are isolated: a leaf and proof that lead to the root of one
/// campaign are refused as a mismatch by every campaign with another root,
/// whatever the state of the claimant's record there. The same holds of one
/// campaign whose stored root has been changed: a leaf and proof lead to one
/// root only.
pub proof fn lemma_cross_event_isolation(
    root_a: [u8; 32],
    root_b: [u8; 32],
    slot_b: Option<ClaimData>,
    user: Pubkey,
    leaf: [u8; 32],
    proof: Seq<[u8; 32]>,
)
    requires
        merkle_fold(leaf, proof) == root_a,
        root_a != root_b,
    ensures
        claim_outcome(root_b, slot_b, user, merkle_fold(leaf, proof)) == Err::<
            ClaimData,
            ErrorCode,
        >(ErrorCode::MerkleProofMismatch),
        slot_after_claim(root_b, slot_b, user, merkle_fold(leaf, proof)) == slot_b,
{
}

/// Decides a claim whose root has been recomputed as `computed`. On success
/// the claimant's record is marked claimed and bound to the caller; on
/// failure nothing changes.
pub fn settle_claim(ctx: &mut Claim, computed: [u8; 32]) -> (r: Result<(), ErrorCode>)
    ensures
        final(ctx).event == old(ctx).event,
        final(ctx).user == old(ctx).user,
        final(ctx).claim_data == slot_after_claim(
            old(ctx).event.merkle_root,
            old(ctx).claim_data,
            old(ctx).user,
            computed,
        ),
        match claim_outcome(
            old(ctx).event.merkle_root,
            old(ctx).claim_data,
            old(ctx).user,
            computed,
        ) {
            Ok(_) => r is Ok,
            Err(e) => r == Err::<(), ErrorCode>(e),
        },
{
    if !digest_eq(&computed, &ctx.event.merkle_root) {
        return Err(ErrorCode::MerkleProofMismatch);
    }
    let open = match ctx.claim_data {
        Some(record) => !record.claimed,
        None => true,
    };
    if !open {
        return Err(ErrorCode::AlreadyClaimed);
    }
    ctx.claim_data = Some(ClaimData { user: ctx.user, claimed: true });
    Ok(())
}

/// Redeems the entry `leaf` for the caller: recomputes the root from `leaf`
/// and `proof`, and settles the claim against the campaign's root.
pub fn claim(ctx: &mut Claim, proof: Vec<[u8; 32]>, leaf: [u8; 32]) -> (r: Result<(), ErrorCode>)
    ensures
        final(ctx).event == old(ctx).event,
        final(ctx).user == old(ctx).user,
        final(ctx).claim_data == slot_after_claim(
            old(ctx).event.merkle_root,
            old(ctx).claim_data,
            old(ctx).user,
            merkle_fold(leaf, proof@),
        ),
        match claim_outcome(
            old(ctx).event.merkle_root,
            old(ctx).claim_data,
            old(ctx).user,
            merkle_fold(leaf, proof@),
        ) {
            Ok(_) => r is Ok,
            Err(e) => r == Err::<(), ErrorCode>(e),
        },
{
    let computed = compute_root(&proof, leaf);
    settle_claim(ctx, computed)
}

} // verus!
