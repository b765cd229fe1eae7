//! The identity of an organizer or a claimant.

use vstd::prelude::*;

verus! {

/// `anchor_lang::prelude::Pubkey`, the 32-byte public key by which the host
/// names an account holder. The library stores and hands on such keys and
/// never looks inside one.
#[verifier::external_type_specification]
#[verifier::external_body]
pub struct ExPubkey(anchor_lang::prelude::Pubkey);

} // verus!
