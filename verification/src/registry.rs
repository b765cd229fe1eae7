//! The campaign record: a Merkle root and the organizer who registered it.

use crate::error::ErrorCode;
use anchor_lang::prelude::Pubkey;
use vstd::prelude::*;

verus! {

/// One claim campaign. The root commits to every eligible leaf and is never
/// changed once the record exists.
#[derive(Clone, Copy, Debug, PartialEq, Eq)]
pub struct Event {
    pub merkle_root: [u8; 32],
    pub organizer: Pubkey,
}

/// What the host hands to [`initialize_event`]: the place where the campaign
/// record is to stand, empty or not, and the authenticated caller.
#[derive(Clone, Copy, Debug, PartialEq, Eq)]
pub struct InitializeEvent {
    pub event: Option<Event>,
    pub organizer: Pubkey,
}

/// The record that a successful initialization leaves.
pub open spec fn new_event(merkle_root: [u8; 32], organizer: Pubkey) -> Event {
    Event { merkle_root, organizer }
}

/// What initializing does to the place of a campaign record: an empty place
/// receives the new record, an occupied one is refused.
pub open spec fn initialize_outcome(
    slot: Option<Event>,
    organizer: Pubkey,
    merkle_root: [u8; 32],
) -> Result<Event, ErrorCode> {
    if slot is Some {
        Err(ErrorCode::AllocationConflict)
    } else {
        Ok(new_event(merkle_root, organizer))
    }
}

/// Registers a campaign: stores `merkle_root` as given, with the caller as
/// organizer. The root itself is not examined. Where a record already exists
/// the call fails and the record stays as it was.
pub fn initialize_event(ctx: &mut InitializeEvent, merkle_root: [u8; 32]) -> (r: Result<
    (),
    ErrorCode,
>)
    ensures
        final(ctx).organizer == old(ctx).organizer,
        match initialize_outcome(old(ctx).event, old(ctx).organizer, merkle_root) {
            Ok(event) => r is Ok && final(ctx).event == Some(event),
            Err(e) => r == Err::<(), ErrorCode>(e) && final(ctx).event == old(ctx).event,
        },
{
    if ctx.event.is_some() {
        return Err(ErrorCode::AllocationConflict);
    }
    ctx.event = Some(Event { merkle_root, organizer: ctx.organizer });
    Ok(())
}

} // verus!
