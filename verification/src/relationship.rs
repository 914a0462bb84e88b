//! The relationship engine: likes, the detection of mutual likes, and
//! matches.

use vstd::prelude::*;
use crate::address::{like_address, like_at, match_address, match_at, Derived};
use crate::errors::{verdict, SolDateError, Violation};
use crate::keys::{canonical, canonical_pair, lemma_canonical_symmetric, Address, Identity};
use crate::records::{
    is_member, lemma_with_member, occurrences, Like, Match, MatchView, Slot, UserProfile, Witness,
    MAX_MATCHES,
};

verus! {

/// What `send_like` works on: the caller, the profiles of the caller and of
/// the identity liked, the slot in which the like is to be created, and
/// optionally a witness: the slot that the caller claims holds the like in
/// the opposite direction.
#[derive(Clone, Debug, PartialEq, Eq)]
pub struct SendLike {
    pub program_id: Address,
    pub sender: Identity,
    pub sender_profile: UserProfile,
    pub target_profile: UserProfile,
    pub like: Slot<Like>,
    pub witness: Option<Witness>,
}

/// What `create_match` works on: the slots of the two likes and the slot
/// in which the match is to be created.
#[derive(Clone, Debug, PartialEq, Eq)]
pub struct CreateMatch {
    pub program_id: Address,
    pub like_ab: Witness,
    pub like_ba: Witness,
    pub conversation: Slot<Match>,
}

/// Whether a slot proves that a like exists at the address `at`: it sits at
/// that address and is not vacant.
pub open spec fn confirmed(slot: Witness, at: Option<Derived>) -> bool {
    at is Some && slot.address == at->0.address && slot.record is Some
}

/// Whether the witness proves that the like in the opposite direction
/// exists, whose address is `reverse`.
pub open spec fn witnessed(witness: Option<Witness>, reverse: Option<Derived>) -> bool {
    witness is Some && confirmed(witness->0, reverse)
}

/// Whether both profiles can list the other as a match.
pub open spec fn room_for_match(ctx: SendLike, target_user: Identity) -> bool {
    ctx.sender_profile@.has_room_for(target_user) && ctx.target_profile@.has_room_for(ctx.sender)
}

/// Why a like is not created, if it is not, the first of: the caller likes
/// itself; one of the two profiles is inactive; the first profile is not the
/// caller's; the second is not that of the identity liked; no address can be
/// derived for the like; the slot supplied is not the one at that address;
/// the slot is occupied; the like is mutual and a list of matches is full.
pub open spec fn send_like_refusal(
    ctx: SendLike,
    target_user: Identity,
    place: Option<Derived>,
    reverse: Option<Derived>,
) -> Option<SolDateError> {
    if ctx.sender == target_user {
        Some(SolDateError::SelfReference)
    } else if !ctx.sender_profile.is_active || !ctx.target_profile.is_active {
        Some(SolDateError::InactiveProfile)
    } else if ctx.sender_profile.owner != ctx.sender {
        Some(SolDateError::Unauthorized)
    } else if ctx.target_profile.owner != target_user {
        Some(SolDateError::PreconditionFailed)
    } else if place is None {
        Some(SolDateError::ValidationError(Violation::InvalidSeeds))
    } else if ctx.like.address != place->0.address {
        Some(SolDateError::PreconditionFailed)
    } else if ctx.like.record is Some {
        Some(SolDateError::DuplicateRecord)
    } else if witnessed(ctx.witness, reverse) && !room_for_match(ctx, target_user) {
        Some(SolDateError::ValidationError(Violation::TooManyMatches))
    } else {
        None
    }
}

/// Whether nothing but the state of the slot decides on a like: the caller
/// likes another identity, both profiles are active and are those of the
/// two identities, and the slot supplied is the one at the address derived
/// for the like.
pub open spec fn like_admissible(ctx: SendLike, target_user: Identity, place: Option<Derived>) -> bool {
    &&& ctx.sender != target_user
    &&& ctx.sender_profile.is_active
    &&& ctx.target_profile.is_active
    &&& ctx.sender_profile.owner == ctx.sender
    &&& ctx.target_profile.owner == target_user
    &&& place is Some
    &&& ctx.like.address == place->0.address
}

/// What `send_like_at` leaves behind. A refused call changes nothing. A
/// call carried out fills the slot with the like from the caller to
/// `target_user`, made at `now`. The like is mutual exactly where the
/// witness proves the opposite like; then that like is marked mutual too,
/// and each of the two profiles lists the other's owner as a match, once.
pub open spec fn like_sent(
    before: SendLike,
    after: SendLike,
    outcome: Result<(), SolDateError>,
    target_user: Identity,
    now: i64,
    place: Option<Derived>,
    reverse: Option<Derived>,
) -> bool {
    let mutual = witnessed(before.witness, reverse);
    &&& outcome == verdict(send_like_refusal(before, target_user, place, reverse))
    &&& outcome is Err ==> after == before
    &&& outcome is Ok ==> {
        &&& after.program_id == before.program_id
        &&& after.sender == before.sender
        &&& after.like == (Slot {
            address: before.like.address,
            record: Some(
                Like {
                    sender: before.sender,
                    receiver: target_user,
                    timestamp: now,
                    is_mutual: mutual,
                    bump: place->0.bump,
                },
            ),
        })
        &&& !mutual ==> {
            &&& after.witness == before.witness
            &&& after.sender_profile@ == before.sender_profile@
            &&& after.target_profile@ == before.target_profile@
        }
        &&& mutual ==> {
            &&& after.witness == Some(
                Slot {
                    address: before.witness->0.address,
                    record: Some(Like { is_mutual: true, ..before.witness->0.record->0 }),
                },
            )
            &&& after.sender_profile@ == before.sender_profile@.matched_with(target_user)
            &&& after.target_profile@ == before.target_profile@.matched_with(before.sender)
        }
    }
}

/// The like that a slot proves to exist at the address `at`, if it proves
/// one.
pub fn confirm(slot: &Witness, at: &Option<Derived>) -> (r: Option<Like>)
    ensures
        r is Some == confirmed(*slot, *at),
        r is Some ==> slot.record == r,
{
    match at {
        Some(derived) => {
            if slot.address == derived.address {
                slot.record
            } else {
                None
            }
        },
        None => None,
    }
}

fn has_room(profile: &UserProfile, who: &Identity) -> (r: bool)
    ensures
        r == profile@.has_room_for(*who),
{
    is_member(&profile.matches, who) || profile.matches.len() < MAX_MATCHES
}

fn list_match(profile: &mut UserProfile, who: Identity)
    requires
        old(profile)@.has_room_for(who),
    ensures
        final(profile)@ == old(profile)@.matched_with(who),
        old(profile)@.valid() ==> final(profile)@.valid(),
{
    proof {
        lemma_with_member(profile.matches@, who);
    }
    if !is_member(&profile.matches, &who) {
        profile.matches.push(who);
    }
}

/// Creates the like from the caller to `target_user` in the slot supplied,
/// given the address `place` derived for it and the address `reverse`
/// derived for the like in the opposite direction.
pub fn send_like_at(
    ctx: &mut SendLike,
    target_user: Identity,
    now: i64,
    place: Option<Derived>,
    reverse: Option<Derived>,
) -> (r: Result<(), SolDateError>)
    ensures
        like_sent(*old(ctx), *final(ctx), r, target_user, now, place, reverse),
        old(ctx).sender == target_user ==> r == Err::<(), SolDateError>(
            SolDateError::SelfReference,
        ),
        old(ctx).like.record is Some ==> r is Err && *final(ctx) == *old(ctx),
        old(ctx).like.record is Some && like_admissible(*old(ctx), target_user, place) ==> r
            == Err::<(), SolDateError>(SolDateError::DuplicateRecord),
        r is Ok && old(ctx).sender_profile@.valid() ==> final(ctx).sender_profile@.valid(),
        r is Ok && old(ctx).target_profile@.valid() ==> final(ctx).target_profile@.valid(),
        r is Ok ==> final(ctx).like.record->0.sender != final(ctx).like.record->0.receiver,
{
    if ctx.sender == target_user {
        return Err(SolDateError::SelfReference);
    }
    if !ctx.sender_profile.is_active || !ctx.target_profile.is_active {
        return Err(SolDateError::InactiveProfile);
    }
    if ctx.sender_profile.owner != ctx.sender {
        return Err(SolDateError::Unauthorized);
    }
    if ctx.target_profile.owner != target_user {
        return Err(SolDateError::PreconditionFailed);
    }
    let place = match place {
        Some(derived) => derived,
        None => {
            return Err(SolDateError::ValidationError(Violation::InvalidSeeds));
        },
    };
    if ctx.like.address != place.address {
        return Err(SolDateError::PreconditionFailed);
    }
    if ctx.like.record.is_some() {
        return Err(SolDateError::DuplicateRecord);
    }
    let proven: Option<(Address, Like)> = match &ctx.witness {
        Some(slot) => match confirm(slot, &reverse) {
            Some(opposite) => Some((slot.address, opposite)),
            None => None,
        },
        None => None,
    };
    let sender = ctx.sender;
    match proven {
        Some((at, opposite)) => {
            if !has_room(&ctx.sender_profile, &target_user) || !has_room(
                &ctx.target_profile,
                &sender,
            ) {
                return Err(SolDateError::ValidationError(Violation::TooManyMatches));
            }
            list_match(&mut ctx.sender_profile, target_user);
            list_match(&mut ctx.target_profile, sender);
            ctx.witness = Some(
                Slot {
                    address: at,
                    record: Some(
                        Like {
                            sender: opposite.sender,
                            receiver: opposite.receiver,
                            timestamp: opposite.timestamp,
                            is_mutual: true,
                            bump: opposite.bump,
                        },
                    ),
                },
            );
            ctx.like.record = Some(
                Like {
                    sender,
                    receiver: target_user,
                    timestamp: now,
                    is_mutual: true,
                    bump: place.bump,
                },
            );
        },
        None => {
            ctx.like.record = Some(
                Like {
                    sender,
                    receiver: target_user,
                    timestamp: now,
                    is_mutual: false,
                    bump: place.bump,
                },
            );
        },
    }
    Ok(())
}

/// Creates the like from the caller to `target_user` at the address derived
/// from the two identities in that order, and detects whether the like is
/// mutual: the witness is trusted only where it sits at the address derived
/// for the opposite like and is not vacant.
pub fn send_like(ctx: &mut SendLike, target_user: Identity, now: i64) -> (r: Result<
    (),
    SolDateError,
>)
    ensures
        like_sent(
            *old(ctx),
            *final(ctx),
            r,
            target_user,
            now,
            like_at(old(ctx).program_id, old(ctx).sender, target_user),
            like_at(old(ctx).program_id, target_user, old(ctx).sender),
        ),
        old(ctx).sender == target_user ==> r == Err::<(), SolDateError>(
            SolDateError::SelfReference,
        ),
        old(ctx).like.record is Some ==> r is Err && *final(ctx) == *old(ctx),
        old(ctx).like.record is Some && like_admissible(
            *old(ctx),
            target_user,
            like_at(old(ctx).program_id, old(ctx).sender, target_user),
        ) ==> r == Err::<(), SolDateError>(SolDateError::DuplicateRecord),
        r is Ok && old(ctx).sender_profile@.valid() ==> final(ctx).sender_profile@.valid(),
        r is Ok && old(ctx).target_profile@.valid() ==> final(ctx).target_profile@.valid(),
        r is Ok ==> final(ctx).like.record->0.sender != final(ctx).like.record->0.receiver,
{
    let place = like_address(&ctx.program_id, &ctx.sender, &target_user);
    let reverse = like_address(&ctx.program_id, &target_user, &ctx.sender);
    send_like_at(ctx, target_user, now, place, reverse)
}

/// A like sent with a witness that proves the opposite like is mutual in
/// both directions: both likes are marked mutual. Where neither profile
/// listed a match twice before, each then lists the other's owner exactly
/// once, whether or not it listed that owner before; listing the owner once
/// more changes nothing.
pub proof fn lemma_mutual_like(
    before: SendLike,
    after: SendLike,
    outcome: Result<(), SolDateError>,
    target_user: Identity,
    now: i64,
    place: Option<Derived>,
    reverse: Option<Derived>,
)
    requires
        like_sent(before, after, outcome, target_user, now, place, reverse),
        outcome is Ok,
        witnessed(before.witness, reverse),
        before.sender_profile@.matches.no_duplicates(),
        before.target_profile@.matches.no_duplicates(),
    ensures
        after.like.record->0.is_mutual,
        after.witness->0.record->0.is_mutual,
        occurrences(after.sender_profile@.matches, target_user) == 1,
        occurrences(after.target_profile@.matches, before.sender) == 1,
        after.sender_profile@.matched_with(target_user) == after.sender_profile@,
        after.target_profile@.matched_with(before.sender) == after.target_profile@,
{
    lemma_with_member(before.sender_profile@.matches, target_user);
    lemma_with_member(before.target_profile@.matches, before.sender);
}

/// Whether two likes name each other's sender as receiver.
pub open spec fn cross_reference(ab: Like, ba: Like) -> bool {
    ab.sender == ba.receiver && ab.receiver == ba.sender
}

/// Whether the two slots prove a mutual like: each holds a like at the
/// address given for it, the two likes name each other, and both are marked
/// mutual.
pub open spec fn mutual_likes(ctx: CreateMatch, ab_at: Option<Derived>, ba_at: Option<Derived>) -> bool {
    &&& confirmed(ctx.like_ab, ab_at)
    &&& confirmed(ctx.like_ba, ba_at)
    &&& cross_reference(ctx.like_ab.record->0, ctx.like_ba.record->0)
    &&& ctx.like_ab.record->0.is_mutual
    &&& ctx.like_ba.record->0.is_mutual
}

/// Why a match is not created, if it is not, the first of: the two slots do
/// not prove a mutual like; the two members are one identity; no address
/// can be derived for the match; the slot supplied is not the one at that
/// address; the slot is occupied.
pub open spec fn create_match_refusal(
    ctx: CreateMatch,
    ab_at: Option<Derived>,
    ba_at: Option<Derived>,
    place: Option<Derived>,
) -> Option<SolDateError> {
    if !mutual_likes(ctx, ab_at, ba_at) {
        Some(SolDateError::NotMutual)
    } else if ctx.like_ab.record->0.sender == ctx.like_ab.record->0.receiver {
        Some(SolDateError::SelfReference)
    } else if place is None {
        Some(SolDateError::ValidationError(Violation::InvalidSeeds))
    } else if ctx.conversation.address != place->0.address {
        Some(SolDateError::PreconditionFailed)
    } else if ctx.conversation.record is Some {
        Some(SolDateError::DuplicateRecord)
    } else {
        None
    }
}

/// What `create_match_at` leaves behind. A refused call changes nothing. A
/// call carried out leaves the likes as they were and fills the slot with
/// the match of the two identities in canonical order, made at `now`,
/// active and without messages.
pub open spec fn match_created(
    before: CreateMatch,
    after: CreateMatch,
    outcome: Result<(), SolDateError>,
    now: i64,
    ab_at: Option<Derived>,
    ba_at: Option<Derived>,
    place: Option<Derived>,
) -> bool {
    &&& outcome == verdict(create_match_refusal(before, ab_at, ba_at, place))
    &&& outcome is Err ==> after == before
    &&& outcome is Ok ==> {
        let pair = canonical(before.like_ab.record->0.sender, before.like_ab.record->0.receiver);
        &&& after.program_id == before.program_id
        &&& after.like_ab == before.like_ab
        &&& after.like_ba == before.like_ba
        &&& after.conversation.address == before.conversation.address
        &&& after.conversation.record is Some
        &&& after.conversation.record->0@ == (MatchView {
            user1: pair.0,
            user2: pair.1,
            created_at: now,
            is_active: true,
            message_count: 0,
            messages: Seq::empty(),
            bump: place->0.bump,
        })
    }
}

/// The address derived for the like that a slot holds, from the like's own
/// sender and receiver; nothing for a vacant slot.
pub open spec fn like_place(program: Address, slot: Witness) -> Option<Derived> {
    if slot.record is Some {
        like_at(program, slot.record->0.sender, slot.record->0.receiver)
    } else {
        None
    }
}

/// The address derived for the match of the two identities of the like that
/// a slot holds; nothing for a vacant slot.
pub open spec fn match_place(program: Address, slot: Witness) -> Option<Derived> {
    if slot.record is Some {
        match_at(program, slot.record->0.sender, slot.record->0.receiver)
    } else {
        None
    }
}

/// Creates the match that two likes prove, given the addresses `ab_at` and
/// `ba_at` derived for the likes and the address `place` derived for the
/// match.
pub fn create_match_at(
    ctx: &mut CreateMatch,
    now: i64,
    ab_at: Option<Derived>,
    ba_at: Option<Derived>,
    place: Option<Derived>,
) -> (r: Result<(), SolDateError>)
    ensures
        match_created(*old(ctx), *final(ctx), r, now, ab_at, ba_at, place),
        r is Ok ==> old(ctx).like_ab.record is Some && old(ctx).like_ba.record is Some
            && cross_reference(old(ctx).like_ab.record->0, old(ctx).like_ba.record->0),
        old(ctx).like_ab.record is Some && old(ctx).like_ba.record is Some && !cross_reference(
            old(ctx).like_ab.record->0,
            old(ctx).like_ba.record->0,
        ) ==> r == Err::<(), SolDateError>(SolDateError::NotMutual),
        r is Ok ==> final(ctx).conversation.record->0@.valid(),
        r is Ok ==> final(ctx).conversation.record->0.user1 != final(ctx).conversation.record->0.user2,
{
    let ab = match confirm(&ctx.like_ab, &ab_at) {
        Some(like) => like,
        None => {
            return Err(SolDateError::NotMutual);
        },
    };
    let ba = match confirm(&ctx.like_ba, &ba_at) {
        Some(like) => like,
        None => {
            return Err(SolDateError::NotMutual);
        },
    };
    if ab.sender != ba.receiver || ab.receiver != ba.sender {
        return Err(SolDateError::NotMutual);
    }
    if !ab.is_mutual || !ba.is_mutual {
        return Err(SolDateError::NotMutual);
    }
    if ab.sender == ab.receiver {
        return Err(SolDateError::SelfReference);
    }
    let place = match place {
        Some(derived) => derived,
        None => {
            return Err(SolDateError::ValidationError(Violation::InvalidSeeds));
        },
    };
    if ctx.conversation.address != place.address {
        return Err(SolDateError::PreconditionFailed);
    }
    if ctx.conversation.record.is_some() {
        return Err(SolDateError::DuplicateRecord);
    }
    let pair = canonical_pair(ab.sender, ab.receiver);
    proof {
        lemma_canonical_symmetric(ab.sender, ab.receiver);
    }
    ctx.conversation.record = Some(
        Match {
            user1: pair.0,
            user2: pair.1,
            created_at: now,
            is_active: true,
            message_count: 0,
            messages: Vec::new(),
            bump: place.bump,
        },
    );
    Ok(())
}

/// Creates the match of two identities from their two likes. Each like is
/// confirmed at the address derived from its own sender and receiver, and
/// the match is created at the address derived from the pair in canonical
/// order: the same whichever like is named first.
pub fn create_match(ctx: &mut CreateMatch, now: i64) -> (r: Result<(), SolDateError>)
    ensures
        match_created(
            *old(ctx),
            *final(ctx),
            r,
            now,
            like_place(old(ctx).program_id, old(ctx).like_ab),
            like_place(old(ctx).program_id, old(ctx).like_ba),
            match_place(old(ctx).program_id, old(ctx).like_ab),
        ),
        r is Ok ==> old(ctx).like_ab.record is Some && old(ctx).like_ba.record is Some
            && cross_reference(old(ctx).like_ab.record->0, old(ctx).like_ba.record->0),
        old(ctx).like_ab.record is Some && old(ctx).like_ba.record is Some && !cross_reference(
            old(ctx).like_ab.record->0,
            old(ctx).like_ba.record->0,
        ) ==> r == Err::<(), SolDateError>(SolDateError::NotMutual),
        r is Ok ==> final(ctx).conversation.record->0@.valid(),
        r is Ok ==> final(ctx).conversation.record->0.user1 != final(ctx).conversation.record->0.user2,
{
    let ab_at = match &ctx.like_ab.record {
        Some(like) => like_address(&ctx.program_id, &like.sender, &like.receiver),
        None => None,
    };
    let ba_at = match &ctx.like_ba.record {
        Some(like) => like_address(&ctx.program_id, &like.sender, &like.receiver),
        None => None,
    };
    let place = match &ctx.like_ab.record {
        Some(like) => match_address(&ctx.program_id, &like.sender, &like.receiver),
        None => None,
    };
    create_match_at(ctx, now, ab_at, ba_at, place)
}

/// A match is placed and filled alike whichever of its two likes is named
/// first: likes that name each other give the same address for the match
/// and the same pair in canonical order.
pub proof fn lemma_match_place_symmetric(program: Address, like_ab: Witness, like_ba: Witness)
    requires
        like_ab.record is Some,
        like_ba.record is Some,
        cross_reference(like_ab.record->0, like_ba.record->0),
    ensures
        match_place(program, like_ab) == match_place(program, like_ba),
        canonical(like_ab.record->0.sender, like_ab.record->0.receiver) == canonical(
            like_ba.record->0.sender,
            like_ba.record->0.receiver,
        ),
{
    lemma_canonical_symmetric(like_ab.record->0.sender, like_ab.record->0.receiver);
}

/// The two likes that a like sent with a proving witness leaves behind
/// prove a mutual like: where the witness holds the like from the identity
/// liked back to the caller, a match of the two is never refused for want
/// of mutual likes.
pub proof fn lemma_witnessed_likes_match(
    before: SendLike,
    after: SendLike,
    outcome: Result<(), SolDateError>,
    target_user: Identity,
    now: i64,
    place: Option<Derived>,
    reverse: Option<Derived>,
    request: CreateMatch,
    spot: Option<Derived>,
)
    requires
        like_sent(before, after, outcome, target_user, now, place, reverse),
        outcome is Ok,
        witnessed(before.witness, reverse),
        before.witness->0.record->0.sender == target_user,
        before.witness->0.record->0.receiver == before.sender,
        request.like_ab == after.witness->0,
        request.like_ba == after.like,
    ensures
        mutual_likes(request, reverse, place),
        create_match_refusal(request, reverse, place, spot) != Some(SolDateError::NotMutual),
{
}

} // verus!
