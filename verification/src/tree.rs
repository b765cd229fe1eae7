//! A model of the tree that a root commits to, and the proof that a position
//! in it has. Nothing here runs: the tree is built elsewhere, and the library
//! only ever sees one leaf and one proof at a time. The model says what a
//! genuine proof is, so that each one can be shown to be accepted.

use crate::error::ErrorCode;
use crate::ledger::{claim_outcome, claimed_by, is_unclaimed, ClaimData};
use crate::merkle::{combine, lemma_combine_commutative, lemma_fold_push, merkle_fold};
use anchor_lang::prelude::Pubkey;
use vstd::prelude::*;

verus! {

/// A binary hash tree of any shape over 32-byte leaves.
pub enum MerkleTree {
    Leaf([u8; 32]),
    Node(Box<MerkleTree>, Box<MerkleTree>),
}

impl MerkleTree {
    /// The root digest: a leaf is its own root, and an inner node combines
    /// the roots of its two children in sorted order.
    pub open spec fn root(self) -> [u8; 32]
        decreases self,
    {
        match self {
            MerkleTree::Leaf(digest) => digest,
            MerkleTree::Node(left, right) => combine(left.root(), right.root()),
        }
    }

    /// The leaves that the tree commits to.
    pub open spec fn leaves(self) -> Set<[u8; 32]>
        decreases self,
    {
        match self {
            MerkleTree::Leaf(digest) => set![digest],
            MerkleTree::Node(left, right) => left.leaves().union(right.leaves()),
        }
    }

    /// Whether `path` leads from the root to a leaf: one step per level,
    /// `false` into the left child and `true` into the right one.
    pub open spec fn has_path(self, path: Seq<bool>) -> bool
        decreases self,
    {
        match self {
            MerkleTree::Leaf(_) => path.len() == 0,
            MerkleTree::Node(left, right) => path.len() > 0 && if path[0] {
                right.has_path(path.skip(1))
            } else {
                left.has_path(path.skip(1))
            },
        }
    }

    /// The leaf at the end of `path`.
    pub open spec fn leaf_at(self, path: Seq<bool>) -> [u8; 32]
        recommends
            self.has_path(path),
        decreases self,
    {
        match self {
            MerkleTree::Leaf(digest) => digest,
            MerkleTree::Node(left, right) => if path.len() > 0 && path[0] {
                right.leaf_at(path.skip(1))
            } else {
                left.leaf_at(path.skip(1))
            },
        }
    }

    /// The genuine proof of the leaf at the end of `path`: the roots of the
    /// subtrees that the path leaves aside, lowest first.
    pub open spec fn proof_at(self, path: Seq<bool>) -> Seq<[u8; 32]>
        recommends
            self.has_path(path),
        decreases self,
    {
        match self {
            MerkleTree::Leaf(_) => Seq::empty(),
            MerkleTree::Node(left, right) => if path.len() > 0 && path[0] {
                right.proof_at(path.skip(1)).push(left.root())
            } else {
                left.proof_at(path.skip(1)).push(right.root())
            },
        }
    }
}

/// A genuine proof leads to the root: for every position in every tree, the
/// leaf there and the siblings along its path fold to the tree's root.
pub proof fn lemma_genuine_proof_reaches_root(tree: MerkleTree, path: Seq<bool>)
    requires
        tree.has_path(path),
    ensures
        merkle_fold(tree.leaf_at(path), tree.proof_at(path)) == tree.root(),
    decreases tree,
{
    match tree {
        MerkleTree::Leaf(_) => {},
        MerkleTree::Node(left, right) => {
            let rest = path.skip(1);
            if path[0] {
                lemma_genuine_proof_reaches_root(*right, rest);
                lemma_fold_push(right.leaf_at(rest), right.proof_at(rest), left.root());
                lemma_combine_commutative(right.root(), left.root());
            } else {
                lemma_genuine_proof_reaches_root(*left, rest);
                lemma_fold_push(left.leaf_at(rest), left.proof_at(rest), right.root());
            }
        },
    }
}

/// Every leaf that a tree commits to stands at the end of some path, and so
/// has a genuine proof.
pub proof fn lemma_every_leaf_has_a_path(tree: MerkleTree, leaf: [u8; 32]) -> (path: Seq<bool>)
    requires
        tree.leaves().contains(leaf),
    ensures
        tree.has_path(path),
        tree.leaf_at(path) == leaf,
    decreases tree,
{
    match tree {
        MerkleTree::Leaf(_) => Seq::empty(),
        MerkleTree::Node(left, right) => {
            if left.leaves().contains(leaf) {
                let below = lemma_every_leaf_has_a_path(*left, leaf);
                let path = seq![false] + below;
                assert(path.skip(1) =~= below);
                path
            } else {
                let below = lemma_every_leaf_has_a_path(*right, leaf);
                let path = seq![true] + below;
                assert(path.skip(1) =~= below);
                path
            }
        },
    }
}

/// A first claim with a genuine proof succeeds: for every tree, against a
/// campaign whose root is the tree's, the leaf at any position with the
/// proof of that position is accepted as long as the claimant's record is
/// open, and leaves the record claimed by the caller.
pub proof fn lemma_genuine_claim_succeeds(
    tree: MerkleTree,
    path: Seq<bool>,
    slot: Option<ClaimData>,
    user: Pubkey,
)
    requires
        tree.has_path(path),
        is_unclaimed(slot),
    ensures
        claim_outcome(
            tree.root(),
            slot,
            user,
            merkle_fold(tree.leaf_at(path), tree.proof_at(path)),
        ) == Ok::<ClaimData, ErrorCode>(claimed_by(user)),
{
    lemma_genuine_proof_reaches_root(tree, path);
}

} // verus!
