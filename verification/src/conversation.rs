//! The conversation manager: gating a message on a match or on a like, and
//! filing it under the next sequence number.

use vstd::prelude::*;
use crate::address::{
    direct_message_address, direct_message_at, like_address, like_at, match_address, match_at,
    message_address, message_at, Derived,
};
use crate::errors::{verdict, SolDateError, Violation};
use crate::keys::{Address, Identity};
use crate::records::{
    text_fits, Match, MatchView, MessageAccount, MessageRef, MessageView, Slot, UserProfile,
    Witness,
};
use crate::relationship::{confirm, confirmed};

verus! {

/// Most characters in a message gated on a match.
pub const MAX_CONTENT_LEN: usize = 200;

/// Most characters in a message gated on a like.
pub const MAX_DIRECT_CONTENT_LEN: usize = 80;

/// The conversation a message belongs to, and with it the way the message
/// is gated.
#[derive(Clone, Debug, PartialEq, Eq)]
pub enum Conversation {
    /// Gated on a match: `thread` is the slot of the match, which files the
    /// message under its counter and keeps a reference to it, up to
    /// `reference_cap` references.
    Matched { thread: Slot<Match>, reference_cap: usize },
    /// Gated on a like: the profiles of the sender and of the receiver, and
    /// the slots that the caller claims hold a like between the two, in
    /// either direction.
    Liked { sender_profile: UserProfile, receiver_profile: UserProfile, witnesses: Vec<Witness> },
}

/// What `send_message` works on: the caller, the conversation and the slot
/// in which the message is to be created.
#[derive(Clone, Debug, PartialEq, Eq)]
pub struct SendMessage {
    pub program_id: Address,
    pub sender: Identity,
    pub conversation: Conversation,
    pub message: Slot<MessageAccount>,
}

/// The derived addresses that admit and place a message. Gated on a match,
/// `thread` is the address of the match. Gated on a like, `forward` is the
/// address of the like from sender to receiver and `reverse` that of the
/// like from receiver to sender. `message` is the address of the message
/// itself.
#[derive(Clone, Copy, Debug, PartialEq, Eq)]
pub struct Routes {
    pub thread: Option<Derived>,
    pub forward: Option<Derived>,
    pub reverse: Option<Derived>,
    pub message: Option<Derived>,
}

/// Whether a match can take no further message.
pub open spec fn thread_full(thread: MatchView, reference_cap: usize) -> bool {
    thread.messages.len() >= reference_cap || thread.message_count >= u64::MAX
}

/// Whether one of the witnesses proves a like at `forward` or at `reverse`.
pub open spec fn some_like_witnessed(
    witnesses: Seq<Witness>,
    forward: Option<Derived>,
    reverse: Option<Derived>,
) -> bool {
    exists|i: int|
        0 <= i < witnesses.len() && (confirmed(#[trigger] witnesses[i], forward) || confirmed(
            witnesses[i],
            reverse,
        ))
}

/// Why the message slot cannot be filled, if it cannot: no address can be
/// derived for the message; the slot supplied is not the one at that
/// address; the slot is occupied.
pub open spec fn placement_refusal(message: Slot<MessageAccount>, place: Option<Derived>) -> Option<
    SolDateError,
> {
    if place is None {
        Some(SolDateError::ValidationError(Violation::InvalidSeeds))
    } else if message.address != place->0.address {
        Some(SolDateError::PreconditionFailed)
    } else if message.record is Some {
        Some(SolDateError::DuplicateRecord)
    } else {
        None
    }
}

/// Why a message gated on a match is not sent, if it is not, the first of:
/// the content is too long; the slot of the match is vacant or the match
/// inactive; the caller is not a member of the match; the two members are
/// one identity; the slot of the match is not at the address derived for
/// the match; the match can take no further message; the message slot
/// cannot be filled.
pub open spec fn matched_refusal(
    sender: Identity,
    thread: Slot<Match>,
    reference_cap: usize,
    message: Slot<MessageAccount>,
    content: Seq<char>,
    routes: Routes,
) -> Option<SolDateError> {
    if content.len() > MAX_CONTENT_LEN {
        Some(SolDateError::ValidationError(Violation::MessageTooLong))
    } else if thread.record is None || !thread.record->0.is_active {
        Some(SolDateError::InactiveConversation)
    } else if !thread.record->0@.has_member(sender) {
        Some(SolDateError::Unauthorized)
    } else if thread.record->0.user1 == thread.record->0.user2 {
        Some(SolDateError::SelfReference)
    } else if routes.thread is None || thread.address != routes.thread->0.address {
        Some(SolDateError::PreconditionFailed)
    } else if thread_full(thread.record->0@, reference_cap) {
        Some(SolDateError::ValidationError(Violation::ConversationFull))
    } else {
        placement_refusal(message, routes.message)
    }
}

/// Why a message gated on a like is not sent, if it is not, the first of:
/// the content is too long; one of the two profiles is inactive; the first
/// profile is not the caller's; sender and receiver are one identity; no
/// witness proves a like between the two; the message slot cannot be
/// filled.
pub open spec fn liked_refusal(
    sender: Identity,
    sender_profile: UserProfile,
    receiver_profile: UserProfile,
    witnesses: Seq<Witness>,
    message: Slot<MessageAccount>,
    content: Seq<char>,
    routes: Routes,
) -> Option<SolDateError> {
    if content.len() > MAX_DIRECT_CONTENT_LEN {
        Some(SolDateError::ValidationError(Violation::MessageTooLong))
    } else if !sender_profile.is_active || !receiver_profile.is_active {
        Some(SolDateError::InactiveProfile)
    } else if sender_profile.owner != sender {
        Some(SolDateError::Unauthorized)
    } else if sender == receiver_profile.owner {
        Some(SolDateError::SelfReference)
    } else if !some_like_witnessed(witnesses, routes.forward, routes.reverse) {
        Some(SolDateError::PreconditionFailed)
    } else {
        placement_refusal(message, routes.message)
    }
}

/// Why a message is not sent, if it is not.
pub open spec fn send_message_refusal(ctx: SendMessage, content: Seq<char>, routes: Routes) -> Option<
    SolDateError,
> {
    match ctx.conversation {
        Conversation::Matched { thread, reference_cap } => matched_refusal(
            ctx.sender,
            thread,
            reference_cap,
            ctx.message,
            content,
            routes,
        ),
        Conversation::Liked { sender_profile, receiver_profile, witnesses } => liked_refusal(
            ctx.sender,
            sender_profile,
            receiver_profile,
            witnesses@,
            ctx.message,
            content,
            routes,
        ),
    }
}

/// The identity a message goes to: the other member of the match, or the
/// owner of the receiver's profile.
pub open spec fn receiver_of(ctx: SendMessage) -> Identity {
    match ctx.conversation {
        Conversation::Matched { thread, reference_cap } => thread.record->0@.partner_of(ctx.sender),
        Conversation::Liked { sender_profile, receiver_profile, witnesses } => receiver_profile.owner,
    }
}

/// What `send_message_at` leaves behind. A refused call changes nothing. A
/// call carried out fills the message slot with the message from the caller
/// to the receiver, written at `now`. Gated on a match, the match counts one
/// message more and refers to the new message last; gated on a like, the
/// conversation is left as it was.
pub open spec fn message_sent(
    before: SendMessage,
    after: SendMessage,
    outcome: Result<(), SolDateError>,
    content: Seq<char>,
    now: i64,
    routes: Routes,
) -> bool {
    &&& outcome == verdict(send_message_refusal(before, content, routes))
    &&& outcome is Err ==> after == before
    &&& outcome is Ok ==> {
        &&& after.program_id == before.program_id
        &&& after.sender == before.sender
        &&& after.message.address == before.message.address
        &&& after.message.record is Some
        &&& after.message.record->0@ == (MessageView {
            sender: before.sender,
            receiver: receiver_of(before),
            content,
            timestamp: now,
            bump: routes.message->0.bump,
        })
        &&& match before.conversation {
            Conversation::Matched { thread, reference_cap } => {
                &&& after.conversation is Matched
                &&& after.conversation->reference_cap == reference_cap
                &&& after.conversation->thread.address == thread.address
                &&& after.conversation->thread.record is Some
                &&& after.conversation->thread.record->0@ == thread.record->0@.appended(
                    MessageRef {
                        address: before.message.address,
                        sender: before.sender,
                        timestamp: now,
                    },
                )
            },
            Conversation::Liked { sender_profile, receiver_profile, witnesses } => {
                after.conversation == before.conversation
            },
        }
    }
}

/// The addresses that admit and place a message sent under `message_id`.
/// Gated on a match, the message is placed by the address of the match and
/// the number of messages sent before it; gated on a like, by sender,
/// receiver and `message_id`.
pub open spec fn routes_of(ctx: SendMessage, message_id: u64) -> Routes {
    match ctx.conversation {
        Conversation::Matched { thread, reference_cap } => {
            if thread.record is Some {
                Routes {
                    thread: match_at(ctx.program_id, thread.record->0.user1, thread.record->0.user2),
                    forward: None,
                    reverse: None,
                    message: message_at(ctx.program_id, thread.address, thread.record->0.message_count),
                }
            } else {
                Routes { thread: None, forward: None, reverse: None, message: None }
            }
        },
        Conversation::Liked { sender_profile, receiver_profile, witnesses } => Routes {
            thread: None,
            forward: like_at(ctx.program_id, ctx.sender, receiver_profile.owner),
            reverse: like_at(ctx.program_id, receiver_profile.owner, ctx.sender),
            message: direct_message_at(ctx.program_id, ctx.sender, receiver_profile.owner, message_id),
        },
    }
}

fn placement(message: &Slot<MessageAccount>, place: &Option<Derived>) -> (r: Result<
    Derived,
    SolDateError,
>)
    ensures
        r is Ok ==> placement_refusal(*message, *place) is None && *place == Some(r->Ok_0),
        r is Err ==> placement_refusal(*message, *place) == Some(r->Err_0),
{
    match place {
        Some(derived) => {
            if message.address != derived.address {
                Err(SolDateError::PreconditionFailed)
            } else if message.record.is_some() {
                Err(SolDateError::DuplicateRecord)
            } else {
                Ok(*derived)
            }
        },
        None => Err(SolDateError::ValidationError(Violation::InvalidSeeds)),
    }
}

fn witness_found(witnesses: &Vec<Witness>, forward: &Option<Derived>, reverse: &Option<Derived>) -> (r: bool)
    ensures
        r == some_like_witnessed(witnesses@, *forward, *reverse),
{
    let mut i: usize = 0;
    while i < witnesses.len()
        invariant
            i <= witnesses.len(),
            forall|j: int|
                0 <= j < i ==> !confirmed(#[trigger] witnesses@[j], *forward) && !confirmed(
                    witnesses@[j],
                    *reverse,
                ),
        decreases witnesses.len() - i,
    {
        if confirm(&witnesses[i], forward).is_some() || confirm(&witnesses[i], reverse).is_some() {
            return true;
        }
        i += 1;
    }
    false
}

fn file_matched(
    sender: Identity,
    thread: &mut Slot<Match>,
    reference_cap: usize,
    message: &mut Slot<MessageAccount>,
    content: String,
    now: i64,
    routes: Routes,
) -> (r: Result<(), SolDateError>)
    ensures
        r == verdict(
            matched_refusal(sender, *old(thread), reference_cap, *old(message), content@, routes),
        ),
        r is Err ==> *final(thread) == *old(thread) && *final(message) == *old(message),
        r is Ok ==> {
            &&& final(message).address == old(message).address
            &&& final(message).record is Some
            &&& final(message).record->0@ == (MessageView {
                sender,
                receiver: old(thread).record->0@.partner_of(sender),
                content: content@,
                timestamp: now,
                bump: routes.message->0.bump,
            })
            &&& final(thread).address == old(thread).address
            &&& final(thread).record is Some
            &&& final(thread).record->0@ == old(thread).record->0@.appended(
                MessageRef { address: old(message).address, sender, timestamp: now },
            )
        },
{
    if !text_fits(&content, MAX_CONTENT_LEN) {
        return Err(SolDateError::ValidationError(Violation::MessageTooLong));
    }
    let at = thread.address;
    match &mut thread.record {
        None => Err(SolDateError::InactiveConversation),
        Some(matched) => {
            if !matched.is_active {
                return Err(SolDateError::InactiveConversation);
            }
            let first = sender == matched.user1;
            if !first && sender != matched.user2 {
                return Err(SolDateError::Unauthorized);
            }
            if matched.user1 == matched.user2 {
                return Err(SolDateError::SelfReference);
            }
            match routes.thread {
                Some(derived) => {
                    if at != derived.address {
                        return Err(SolDateError::PreconditionFailed);
                    }
                },
                None => {
                    return Err(SolDateError::PreconditionFailed);
                },
            }
            if matched.messages.len() >= reference_cap || matched.message_count >= u64::MAX {
                return Err(SolDateError::ValidationError(Violation::ConversationFull));
            }
            let place = match placement(message, &routes.message) {
                Ok(derived) => derived,
                Err(error) => {
                    return Err(error);
                },
            };
            let receiver = if first {
                matched.user2
            } else {
                matched.user1
            };
            message.record = Some(
                MessageAccount { sender, receiver, content, timestamp: now, bump: place.bump },
            );
            matched.message_count = matched.message_count + 1;
            matched.messages.push(MessageRef { address: message.address, sender, timestamp: now });
            Ok(())
        },
    }
}

fn file_liked(
    sender: Identity,
    sender_profile: &UserProfile,
    receiver_profile: &UserProfile,
    witnesses: &Vec<Witness>,
    message: &mut Slot<MessageAccount>,
    content: String,
    now: i64,
    routes: Routes,
) -> (r: Result<(), SolDateError>)
    ensures
        r == verdict(
            liked_refusal(
                sender,
                *sender_profile,
                *receiver_profile,
                witnesses@,
                *old(message),
                content@,
                routes,
            ),
        ),
        r is Err ==> *final(message) == *old(message),
        r is Ok ==> {
            &&& final(message).address == old(message).address
            &&& final(message).record is Some
            &&& final(message).record->0@ == (MessageView {
                sender,
                receiver: receiver_profile.owner,
                content: content@,
                timestamp: now,
                bump: routes.message->0.bump,
            })
        },
{
    if !text_fits(&content, MAX_DIRECT_CONTENT_LEN) {
        return Err(SolDateError::ValidationError(Violation::MessageTooLong));
    }
    if !sender_profile.is_active || !receiver_profile.is_active {
        return Err(SolDateError::InactiveProfile);
    }
    if sender_profile.owner != sender {
        return Err(SolDateError::Unauthorized);
    }
    let receiver = receiver_profile.owner;
    if sender == receiver {
        return Err(SolDateError::SelfReference);
    }
    if !witness_found(witnesses, &routes.forward, &routes.reverse) {
        return Err(SolDateError::PreconditionFailed);
    }
    let place = match placement(message, &routes.message) {
        Ok(derived) => derived,
        Err(error) => {
            return Err(error);
        },
    };
    message.record = Some(
        MessageAccount { sender, receiver, content, timestamp: now, bump: place.bump },
    );
    Ok(())
}

/// Sends a message in the conversation supplied, given the derived
/// addresses that admit and place it.
pub fn send_message_at(ctx: &mut SendMessage, content: String, now: i64, routes: Routes) -> (r: Result<
    (),
    SolDateError,
>)
    ensures
        message_sent(*old(ctx), *final(ctx), r, content@, now, routes),
        r is Ok ==> final(ctx).message.record->0.sender != final(ctx).message.record->0.receiver,
{
    let sender = ctx.sender;
    match &mut ctx.conversation {
        Conversation::Matched { thread, reference_cap } => file_matched(
            sender,
            thread,
            *reference_cap,
            &mut ctx.message,
            content,
            now,
            routes,
        ),
        Conversation::Liked { sender_profile, receiver_profile, witnesses } => file_liked(
            sender,
            sender_profile,
            receiver_profile,
            witnesses,
            &mut ctx.message,
            content,
            now,
            routes,
        ),
    }
}

/// The match of a conversation gated on a match whose slot is not vacant.
pub open spec fn thread_of(ctx: SendMessage) -> MatchView {
    ctx.conversation->thread.record->0@
}

/// Sends a message from the caller in the conversation supplied. Gated on a
/// match, the message is filed under the match's counter, which is then
/// one higher; gated on a like, under `message_id`, and only where a
/// witness proves a like between sender and receiver in either direction.
pub fn send_message(ctx: &mut SendMessage, message_id: u64, content: String, now: i64) -> (r: Result<
    (),
    SolDateError,
>)
    ensures
        message_sent(*old(ctx), *final(ctx), r, content@, now, routes_of(*old(ctx), message_id)),
        r is Ok ==> final(ctx).message.record->0.sender != final(ctx).message.record->0.receiver,
        r is Ok && old(ctx).conversation is Matched ==> {
            &&& thread_of(*final(ctx)).message_count == thread_of(*old(ctx)).message_count + 1
            &&& message_at(
                old(ctx).program_id,
                old(ctx).conversation->thread.address,
                old(ctx).conversation->thread.record->0.message_count,
            ) is Some
            &&& final(ctx).message.address == message_at(
                old(ctx).program_id,
                old(ctx).conversation->thread.address,
                old(ctx).conversation->thread.record->0.message_count,
            )->0.address
            &&& thread_of(*old(ctx)).valid() ==> thread_of(*final(ctx)).valid()
        },
{
    let routes = match &ctx.conversation {
        Conversation::Matched { thread, reference_cap } => match &thread.record {
            Some(matched) => Routes {
                thread: match_address(&ctx.program_id, &matched.user1, &matched.user2),
                forward: None,
                reverse: None,
                message: message_address(&ctx.program_id, &thread.address, matched.message_count),
            },
            None => Routes { thread: None, forward: None, reverse: None, message: None },
        },
        Conversation::Liked { sender_profile, receiver_profile, witnesses } => Routes {
            thread: None,
            forward: like_address(&ctx.program_id, &ctx.sender, &receiver_profile.owner),
            reverse: like_address(&ctx.program_id, &receiver_profile.owner, &ctx.sender),
            message: direct_message_address(
                &ctx.program_id,
                &ctx.sender,
                &receiver_profile.owner,
                message_id,
            ),
        },
    };
    send_message_at(ctx, content, now, routes)
}

/// A match after the messages referred to by `references` were sent in it,
/// one after the other.
pub open spec fn after_sends(start: MatchView, references: Seq<MessageRef>) -> MatchView
    decreases references.len(),
{
    if references.len() == 0 {
        start
    } else {
        after_sends(start, references.drop_last()).appended(references.last())
    }
}

/// Messages sent one after the other in a match are filed under numbers
/// that rise by one from the match's counter, without a gap: the message
/// sent after `k` others is filed under the counter plus `k`. After `n`
/// messages the counter is `n` higher, so a new match has counted `n`, and
/// the references stand in the order of sending.
pub proof fn lemma_sequence_is_gapless(start: MatchView, references: Seq<MessageRef>)
    ensures
        after_sends(start, references).message_count == start.message_count + references.len(),
        after_sends(start, references).messages == start.messages + references,
        forall|k: int|
            0 <= k < references.len() ==> (#[trigger] after_sends(
                start,
                references.take(k),
            )).message_count == start.message_count + k,
        start.message_count == 0 ==> after_sends(start, references).message_count
            == references.len(),
        start.valid() ==> after_sends(start, references).valid(),
    decreases references.len(),
{
    if references.len() == 0 {
        assert(start.messages + references =~= start.messages);
    } else {
        let front = references.drop_last();
        lemma_sequence_is_gapless(start, front);
        assert(start.messages + references =~= (start.messages + front).push(references.last()));
        assert forall|k: int| 0 <= k < references.len() implies (#[trigger] after_sends(
            start,
            references.take(k),
        )).message_count == start.message_count + k by {
            if k < front.len() {
                assert(references.take(k) =~= front.take(k));
            } else {
                assert(references.take(k) =~= front);
            }
        }
    }
}

/// A match that is active, holds two different members and sits at the
/// address derived for it admits a message of fitting length from either
/// member, as long as it has room: such a message can only be refused for
/// the slot it is to be written to.
pub proof fn lemma_members_can_write(
    sender: Identity,
    thread: Slot<Match>,
    reference_cap: usize,
    message: Slot<MessageAccount>,
    content: Seq<char>,
    routes: Routes,
)
    requires
        thread.record is Some,
        thread.record->0.is_active,
        thread.record->0@.has_member(sender),
        thread.record->0.user1 != thread.record->0.user2,
        routes.thread is Some,
        thread.address == routes.thread->0.address,
        !thread_full(thread.record->0@, reference_cap),
        content.len() <= MAX_CONTENT_LEN,
    ensures
        matched_refusal(sender, thread, reference_cap, message, content, routes)
            == placement_refusal(message, routes.message),
        thread.record->0@.partner_of(sender) != sender,
        thread.record->0@.has_member(thread.record->0@.partner_of(sender)),
{
}

} // verus!
