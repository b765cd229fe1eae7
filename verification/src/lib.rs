//! Claim campaigns committed to by a Merkle root.
//!
//! An organizer registers a campaign as a single 32-byte root over the digests
//! of all eligible entries. A claimant redeems an entry once, by presenting its
//! digest together with the sibling digests that lead from it to the root.
//! Siblings are combined in sorted order, so a proof carries no positions.

pub mod digest;
pub mod error;
pub mod identity;
pub mod keccak;
pub mod ledger;
pub mod merkle;
pub mod registry;
pub mod soundness;
pub mod tree;

pub use digest::{digest_eq, digest_le};
pub use error::ErrorCode;
pub use ledger::{claim, settle_claim, Claim, ClaimData};
pub use merkle::{compute_root, hash_sorted_pair, order_pair, verify_proof};
pub use registry::{initialize_event, Event, InitializeEvent};
