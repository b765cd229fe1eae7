//! Why an entry point refused a call.

use vstd::prelude::*;

verus! {

/// The ways in which initializing a campaign or redeeming an entry fails.
/// Each is final for the inputs that caused it, and none leaves a record
/// changed.
#[derive(Clone, Copy, Debug, PartialEq, Eq, Structural)]
pub enum ErrorCode {
    /// The root recomputed from the leaf and its proof is not the campaign's.
    MerkleProofMismatch,
    /// The claimant's record for this campaign is already marked claimed.
    AlreadyClaimed,
    /// A campaign record already stands where a new one was to be created.
    AllocationConflict,
}

impl ErrorCode {
    /// A short description of the error for reports.
    pub fn message(&self) -> (text: &'static str)
        ensures
            *self == ErrorCode::MerkleProofMismatch ==> text@ == "Merkle proof mismatch"@,
            *self == ErrorCode::AlreadyClaimed ==> text@ == "Already claimed"@,
            *self == ErrorCode::AllocationConflict ==> text@ == "Event already initialized"@,
    {
        match self {
            ErrorCode::MerkleProofMismatch => "Merkle proof mismatch",
            ErrorCode::AlreadyClaimed => "Already claimed",
            ErrorCode::AllocationConflict => "Event already initialized",
        }
    }
}

} // verus!
