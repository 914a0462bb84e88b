//! The moderation ledger: one-directional blocks. No other operation
//! consults the ledger.

use vstd::prelude::*;
use crate::address::{block_address, block_at, Derived};
use crate::errors::{verdict, SolDateError, Violation};
use crate::keys::{Address, Identity};
use crate::records::{BlockedUser, Slot};

verus! {

/// What `block_user` works on: the caller and the slot in which the block
/// is to be created.
#[derive(Clone, Debug, PartialEq, Eq)]
pub struct Blocked {
    pub program_id: Address,
    pub blocker: Identity,
    pub block: Slot<BlockedUser>,
}

/// Why a block is not created, if it is not, the first of: the caller
/// blocks itself; no address can be derived for the block; the slot
/// supplied is not the one at that address; the slot is occupied.
pub open spec fn block_user_refusal(ctx: Blocked, blocked_user: Identity, place: Option<Derived>) -> Option<
    SolDateError,
> {
    if ctx.blocker == blocked_user {
        Some(SolDateError::SelfReference)
    } else if place is None {
        Some(SolDateError::ValidationError(Violation::InvalidSeeds))
    } else if ctx.block.address != place->0.address {
        Some(SolDateError::PreconditionFailed)
    } else if ctx.block.record is Some {
        Some(SolDateError::DuplicateRecord)
    } else {
        None
    }
}

/// What `block_user_at` leaves behind. A refused call changes nothing. A
/// call carried out fills the slot with the block that the caller declared
/// of `blocked_user` at `now`.
pub open spec fn user_blocked(
    before: Blocked,
    after: Blocked,
    outcome: Result<(), SolDateError>,
    blocked_user: Identity,
    now: i64,
    place: Option<Derived>,
) -> bool {
    &&& outcome == verdict(block_user_refusal(before, blocked_user, place))
    &&& outcome is Err ==> after == before
    &&& outcome is Ok ==> after == (Blocked {
        block: Slot {
            address: before.block.address,
            record: Some(
                BlockedUser {
                    blocker: before.blocker,
                    blocked: blocked_user,
                    timestamp: now,
                    bump: place->0.bump,
                },
            ),
        },
        ..before
    })
}

/// Creates the block that the caller declares of `blocked_user` in the slot
/// supplied, given the address `place` derived for it.
pub fn block_user_at(ctx: &mut Blocked, blocked_user: Identity, now: i64, place: Option<Derived>) -> (r:
    Result<(), SolDateError>)
    ensures
        user_blocked(*old(ctx), *final(ctx), r, blocked_user, now, place),
        old(ctx).blocker == blocked_user ==> r == Err::<(), SolDateError>(
            SolDateError::SelfReference,
        ),
        r is Ok ==> final(ctx).block.record->0.blocker != final(ctx).block.record->0.blocked,
{
    if ctx.blocker == blocked_user {
        return Err(SolDateError::SelfReference);
    }
    let place = match place {
        Some(derived) => derived,
        None => {
            return Err(SolDateError::ValidationError(Violation::InvalidSeeds));
        },
    };
    if ctx.block.address != place.address {
        return Err(SolDateError::PreconditionFailed);
    }
    if ctx.block.record.is_some() {
        return Err(SolDateError::DuplicateRecord);
    }
    ctx.block.record = Some(
        BlockedUser { blocker: ctx.blocker, blocked: blocked_user, timestamp: now, bump: place.bump },
    );
    Ok(())
}

/// Creates the block that the caller declares of `blocked_user` at the
/// address derived from the two identities in that order.
pub fn block_user(ctx: &mut Blocked, blocked_user: Identity, now: i64) -> (r: Result<(), SolDateError>)
    ensures
        user_blocked(
            *old(ctx),
            *final(ctx),
            r,
            blocked_user,
            now,
            block_at(old(ctx).program_id, old(ctx).blocker, blocked_user),
        ),
        old(ctx).blocker == blocked_user ==> r == Err::<(), SolDateError>(
            SolDateError::SelfReference,
        ),
        r is Ok ==> final(ctx).block.record->0.blocker != final(ctx).block.record->0.blocked,
{
    let place = block_address(&ctx.program_id, &ctx.blocker, &blocked_user);
    block_user_at(ctx, blocked_user, now, place)
}

} // verus!
