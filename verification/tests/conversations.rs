use soldate::address::{
    direct_message_address, like_address, match_address, message_address, profile_address,
};
use soldate::conversation::{
    send_message, send_message_at, Conversation, Routes, SendMessage, MAX_CONTENT_LEN,
    MAX_DIRECT_CONTENT_LEN,
};
use soldate::errors::{SolDateError, Violation};
use soldate::keys::{Address, Identity};
use soldate::profile::{create_profile, CreateProfile};
use soldate::records::{Like, Match, MessageAccount, MessageRef, Slot, UserProfile};
use soldate::relationship::{create_match, send_like, CreateMatch, SendLike};

fn chain() -> Address {
    Address::new([9u8; 32])
}

fn user(n: u8) -> Identity {
    Identity::new([n; 32])
}

fn joined(owner: Identity, age: u8, now: i64) -> UserProfile {
    let place = profile_address(&chain(), &owner).unwrap();
    let mut ctx = CreateProfile {
        program_id: chain(),
        user: owner,
        profile: Slot { address: place.address, record: None },
    };
    create_profile(
        &mut ctx,
        "Someone".to_string(),
        age,
        "Hello".to_string(),
        vec!["walks".to_string()],
        "Here".to_string(),
        now,
    )
    .unwrap();
    ctx.profile.record.unwrap()
}

fn fresh_match(a: Identity, b: Identity) -> Slot<Match> {
    let place = match_address(&chain(), &a, &b).unwrap();
    let (first, second) = if a.before(&b) { (a, b) } else { (b, a) };
    Slot {
        address: place.address,
        record: Some(Match {
            user1: first,
            user2: second,
            created_at: 10,
            is_active: true,
            message_count: 0,
            messages: Vec::new(),
            bump: place.bump,
        }),
    }
}

fn on_match(sender: Identity, thread: Slot<Match>, reference_cap: usize) -> SendMessage {
    let count = thread.record.as_ref().map(|m| m.message_count).unwrap_or(0);
    let place = message_address(&chain(), &thread.address, count).unwrap();
    SendMessage {
        program_id: chain(),
        sender,
        conversation: Conversation::Matched { thread, reference_cap },
        message: Slot { address: place.address, record: None },
    }
}

fn thread_in(ctx: &SendMessage) -> Slot<Match> {
    match &ctx.conversation {
        Conversation::Matched { thread, .. } => thread.clone(),
        Conversation::Liked { .. } => panic!("gated on a like"),
    }
}

fn existing_like(sender: Identity, receiver: Identity) -> Slot<Like> {
    let place = like_address(&chain(), &sender, &receiver).unwrap();
    Slot {
        address: place.address,
        record: Some(Like { sender, receiver, timestamp: 5, is_mutual: false, bump: place.bump }),
    }
}

fn on_like(
    sender: Identity,
    receiver: Identity,
    message_id: u64,
    witnesses: Vec<Slot<Like>>,
) -> SendMessage {
    let place = direct_message_address(&chain(), &sender, &receiver, message_id).unwrap();
    SendMessage {
        program_id: chain(),
        sender,
        conversation: Conversation::Liked {
            sender_profile: joined(sender, 25, 0),
            receiver_profile: joined(receiver, 30, 0),
            witnesses,
        },
        message: Slot { address: place.address, record: None },
    }
}

#[test]
fn two_profiles_like_match_and_talk() {
    let (a, b) = (user(1), user(2));
    let profile_a = joined(a, 25, 1);
    let profile_b = joined(b, 30, 2);
    assert_eq!((profile_a.age, profile_b.age), (25, 30));

    let mut first = SendLike {
        program_id: chain(),
        sender: a,
        sender_profile: profile_a,
        target_profile: profile_b,
        like: Slot { address: like_address(&chain(), &a, &b).unwrap().address, record: None },
        witness: None,
    };
    assert_eq!(send_like(&mut first, b, 3), Ok(()));
    assert!(!first.like.record.unwrap().is_mutual);
    assert!(first.sender_profile.matches.is_empty());
    assert!(first.target_profile.matches.is_empty());

    let mut second = SendLike {
        program_id: chain(),
        sender: b,
        sender_profile: first.target_profile,
        target_profile: first.sender_profile,
        like: Slot { address: like_address(&chain(), &b, &a).unwrap().address, record: None },
        witness: Some(first.like),
    };
    assert_eq!(send_like(&mut second, a, 4), Ok(()));
    assert!(second.like.record.unwrap().is_mutual);
    assert_eq!(second.sender_profile.matches, vec![a]);
    assert_eq!(second.target_profile.matches, vec![b]);

    let mut pairing = CreateMatch {
        program_id: chain(),
        like_ab: second.witness.unwrap(),
        like_ba: second.like,
        conversation: Slot {
            address: match_address(&chain(), &a, &b).unwrap().address,
            record: None,
        },
    };
    assert_eq!(create_match(&mut pairing, 5), Ok(()));
    let made = pairing.conversation.record.clone().unwrap();
    assert_eq!(made.message_count, 0);
    assert!(made.messages.is_empty());
    assert!(made.is_active);
    assert_eq!((made.user1, made.user2), (a, b));

    let mut talk = on_match(a, pairing.conversation, 64);
    assert_eq!(send_message(&mut talk, 0, "Hi there".to_string(), 6), Ok(()));
    let thread = thread_in(&talk).record.unwrap();
    assert_eq!(thread.message_count, 1);
    assert_eq!(
        thread.messages,
        vec![MessageRef { address: talk.message.address, sender: a, timestamp: 6 }]
    );
    let written = talk.message.record.unwrap();
    assert_eq!((written.sender, written.receiver), (a, b));
    assert_eq!(written.content, "Hi there");
}

#[test]
fn send_message_files_under_the_counter() {
    let (a, b) = (user(1), user(2));
    let mut thread = fresh_match(a, b);
    let at = thread.address;
    let mut filed: Vec<MessageRef> = Vec::new();
    for n in 0..10u64 {
        let sender = if n % 3 == 0 { b } else { a };
        let mut ctx = on_match(sender, thread, 64);
        let place = message_address(&chain(), &at, n).unwrap();
        assert_eq!(ctx.message.address, place.address);
        assert_eq!(send_message(&mut ctx, 999, format!("message {}", n), 100 + n as i64), Ok(()));
        assert_eq!(
            ctx.message.record,
            Some(MessageAccount {
                sender,
                receiver: if sender == a { b } else { a },
                content: format!("message {}", n),
                timestamp: 100 + n as i64,
                bump: place.bump,
            })
        );
        filed.push(MessageRef { address: place.address, sender, timestamp: 100 + n as i64 });
        thread = thread_in(&ctx);
        let state = thread.record.as_ref().unwrap();
        assert_eq!(state.message_count, n + 1);
        assert_eq!(state.messages, filed);
    }
    assert_eq!(thread.record.unwrap().message_count, 10);
}

#[test]
fn send_message_cannot_reuse_a_sequence_number() {
    let (a, b) = (user(1), user(2));
    let mut ctx = on_match(a, fresh_match(a, b), 64);
    assert_eq!(send_message(&mut ctx, 0, "one".to_string(), 1), Ok(()));
    let stale = ctx.message.address;
    let mut again = on_match(b, thread_in(&ctx), 64);
    assert_ne!(again.message.address, stale);
    again.message.address = stale;
    let before = again.clone();
    assert_eq!(
        send_message(&mut again, 0, "two".to_string(), 2),
        Err(SolDateError::PreconditionFailed)
    );
    assert_eq!(again, before);
}

#[test]
fn send_message_refuses_an_occupied_slot() {
    let (a, b) = (user(1), user(2));
    let mut ctx = on_match(a, fresh_match(a, b), 64);
    ctx.message.record = Some(MessageAccount {
        sender: b,
        receiver: a,
        content: "earlier".to_string(),
        timestamp: 0,
        bump: 0,
    });
    let before = ctx.clone();
    assert_eq!(send_message(&mut ctx, 0, "later".to_string(), 1), Err(SolDateError::DuplicateRecord));
    assert_eq!(ctx, before);
}

#[test]
fn send_message_refuses_long_content() {
    let (a, b) = (user(1), user(2));
    let mut ctx = on_match(a, fresh_match(a, b), 64);
    assert_eq!(send_message(&mut ctx, 0, "x".repeat(MAX_CONTENT_LEN), 1), Ok(()));
    let mut ctx = on_match(a, fresh_match(a, b), 64);
    let before = ctx.clone();
    assert_eq!(
        send_message(&mut ctx, 0, "x".repeat(MAX_CONTENT_LEN + 1), 1),
        Err(SolDateError::ValidationError(Violation::MessageTooLong))
    );
    assert_eq!(ctx, before);
}

#[test]
fn send_message_needs_an_active_conversation() {
    let (a, b) = (user(1), user(2));
    let mut thread = fresh_match(a, b);
    thread.record.as_mut().unwrap().is_active = false;
    let mut ctx = on_match(a, thread, 64);
    let before = ctx.clone();
    assert_eq!(
        send_message(&mut ctx, 0, "hello".to_string(), 1),
        Err(SolDateError::InactiveConversation)
    );
    assert_eq!(ctx, before);
    let mut vacant = fresh_match(a, b);
    vacant.record = None;
    let mut ctx = on_match(a, vacant, 64);
    assert_eq!(
        send_message(&mut ctx, 0, "hello".to_string(), 1),
        Err(SolDateError::InactiveConversation)
    );
}

#[test]
fn send_message_needs_a_member_of_the_match() {
    let (a, b, c) = (user(1), user(2), user(3));
    let mut ctx = on_match(c, fresh_match(a, b), 64);
    let before = ctx.clone();
    assert_eq!(send_message(&mut ctx, 0, "hello".to_string(), 1), Err(SolDateError::Unauthorized));
    assert_eq!(ctx, before);
}

#[test]
fn send_message_needs_the_match_at_its_derived_address() {
    let (a, b) = (user(1), user(2));
    let mut thread = fresh_match(a, b);
    thread.address = Address::new([33u8; 32]);
    let mut ctx = on_match(a, thread, 64);
    assert_eq!(
        send_message(&mut ctx, 0, "hello".to_string(), 1),
        Err(SolDateError::PreconditionFailed)
    );
    assert_eq!(ctx.message.record, None);
}

#[test]
fn send_message_stops_at_the_reference_cap() {
    let (a, b) = (user(1), user(2));
    let mut thread = fresh_match(a, b);
    for n in 0..3 {
        let mut ctx = on_match(a, thread, 3);
        assert_eq!(send_message(&mut ctx, 0, format!("{}", n), 1), Ok(()));
        thread = thread_in(&ctx);
    }
    let mut ctx = on_match(b, thread.clone(), 3);
    let before = ctx.clone();
    assert_eq!(
        send_message(&mut ctx, 0, "one too many".to_string(), 1),
        Err(SolDateError::ValidationError(Violation::ConversationFull))
    );
    assert_eq!(ctx, before);
    let mut ctx = on_match(b, thread, 4);
    assert_eq!(send_message(&mut ctx, 0, "room again".to_string(), 1), Ok(()));
    assert_eq!(thread_in(&ctx).record.unwrap().message_count, 4);
}

#[test]
fn send_message_at_files_where_the_routes_say() {
    let (a, b) = (user(1), user(2));
    let thread = fresh_match(a, b);
    let mut ctx = on_match(b, thread.clone(), 8);
    ctx.message.address = Address::new([70u8; 32]);
    let routes = Routes {
        thread: match_address(&chain(), &a, &b),
        forward: None,
        reverse: None,
        message: Some(soldate::address::Derived { address: Address::new([70u8; 32]), bump: 11 }),
    };
    assert_eq!(send_message_at(&mut ctx, "hello".to_string(), 9, routes), Ok(()));
    assert_eq!(
        ctx.message.record,
        Some(MessageAccount {
            sender: b,
            receiver: a,
            content: "hello".to_string(),
            timestamp: 9,
            bump: 11,
        })
    );
    let mut ctx = on_match(b, thread, 8);
    let routes = Routes { thread: None, forward: None, reverse: None, message: None };
    assert_eq!(
        send_message_at(&mut ctx, "hello".to_string(), 9, routes),
        Err(SolDateError::PreconditionFailed)
    );
    let routes = Routes {
        thread: match_address(&chain(), &a, &b),
        forward: None,
        reverse: None,
        message: None,
    };
    assert_eq!(
        send_message_at(&mut ctx, "hello".to_string(), 9, routes),
        Err(SolDateError::ValidationError(Violation::InvalidSeeds))
    );
}

#[test]
fn send_message_on_a_like_in_either_direction() {
    let (a, b) = (user(1), user(2));
    let place = direct_message_address(&chain(), &a, &b, 7).unwrap();
    let mut ctx = on_like(a, b, 7, vec![existing_like(a, b)]);
    let before = ctx.clone();
    assert_eq!(send_message(&mut ctx, 7, "hello".to_string(), 50), Ok(()));
    assert_eq!(
        ctx.message.record,
        Some(MessageAccount {
            sender: a,
            receiver: b,
            content: "hello".to_string(),
            timestamp: 50,
            bump: place.bump,
        })
    );
    assert_eq!(ctx.conversation, before.conversation);
    let mut ctx = on_like(a, b, 7, vec![existing_like(b, a)]);
    assert_eq!(send_message(&mut ctx, 7, "hello".to_string(), 50), Ok(()));
    let mut ctx = on_like(a, b, 7, vec![existing_like(a, user(3)), existing_like(b, a)]);
    assert_eq!(send_message(&mut ctx, 7, "hello".to_string(), 50), Ok(()));
}

#[test]
fn send_message_on_a_like_needs_a_witness() {
    let (a, b, c) = (user(1), user(2), user(3));
    let mut ctx = on_like(a, b, 7, Vec::new());
    let before = ctx.clone();
    assert_eq!(
        send_message(&mut ctx, 7, "hello".to_string(), 50),
        Err(SolDateError::PreconditionFailed)
    );
    assert_eq!(ctx, before);
    let mut empty = existing_like(a, b);
    empty.record = None;
    let mut ctx = on_like(a, b, 7, vec![empty, existing_like(a, c), existing_like(c, b)]);
    assert_eq!(
        send_message(&mut ctx, 7, "hello".to_string(), 50),
        Err(SolDateError::PreconditionFailed)
    );
    assert_eq!(ctx.message.record, None);
}

#[test]
fn send_message_on_a_like_places_by_the_id() {
    let (a, b) = (user(1), user(2));
    let mut ctx = on_like(a, b, 7, vec![existing_like(a, b)]);
    assert_eq!(
        send_message(&mut ctx, 8, "hello".to_string(), 50),
        Err(SolDateError::PreconditionFailed)
    );
    assert_eq!(ctx.message.record, None);
    assert_eq!(send_message(&mut ctx, 7, "hello".to_string(), 50), Ok(()));
    assert_eq!(
        send_message(&mut ctx, 7, "again".to_string(), 51),
        Err(SolDateError::DuplicateRecord)
    );
    assert_eq!(ctx.message.record.unwrap().content, "hello");
}

#[test]
fn send_message_on_a_like_refuses_long_content() {
    let (a, b) = (user(1), user(2));
    let mut ctx = on_like(a, b, 7, vec![existing_like(a, b)]);
    assert_eq!(
        send_message(&mut ctx, 7, "x".repeat(MAX_DIRECT_CONTENT_LEN + 1), 50),
        Err(SolDateError::ValidationError(Violation::MessageTooLong))
    );
    assert_eq!(ctx.message.record, None);
    assert_eq!(send_message(&mut ctx, 7, "x".repeat(MAX_DIRECT_CONTENT_LEN), 50), Ok(()));
}

#[test]
fn send_message_on_a_like_needs_active_profiles() {
    let (a, b) = (user(1), user(2));
    let mut ctx = on_like(a, b, 7, vec![existing_like(a, b)]);
    if let Conversation::Liked { receiver_profile, .. } = &mut ctx.conversation {
        receiver_profile.is_active = false;
    }
    assert_eq!(
        send_message(&mut ctx, 7, "hello".to_string(), 50),
        Err(SolDateError::InactiveProfile)
    );
    let mut ctx = on_like(a, b, 7, vec![existing_like(a, b)]);
    if let Conversation::Liked { sender_profile, .. } = &mut ctx.conversation {
        sender_profile.is_active = false;
    }
    assert_eq!(
        send_message(&mut ctx, 7, "hello".to_string(), 50),
        Err(SolDateError::InactiveProfile)
    );
    assert_eq!(ctx.message.record, None);
}

#[test]
fn send_message_on_a_like_needs_the_callers_own_profile() {
    let (a, b, c) = (user(1), user(2), user(3));
    let mut ctx = on_like(a, b, 7, vec![existing_like(a, b)]);
    ctx.sender = c;
    assert_eq!(send_message(&mut ctx, 7, "hello".to_string(), 50), Err(SolDateError::Unauthorized));
    assert_eq!(ctx.message.record, None);
}

#[test]
fn send_message_to_oneself_is_a_self_reference() {
    let a = user(1);
    let mut ctx = on_like(a, a, 7, vec![existing_like(a, a)]);
    let before = ctx.clone();
    assert_eq!(send_message(&mut ctx, 7, "hello".to_string(), 50), Err(SolDateError::SelfReference));
    assert_eq!(ctx, before);
}

#[test]
fn send_message_refuses_a_match_of_one_identity() {
    let a = user(1);
    let mut thread = fresh_match(a, user(2));
    thread.record.as_mut().unwrap().user2 = a;
    let mut ctx = on_match(a, thread, 64);
    let before = ctx.clone();
    assert_eq!(send_message(&mut ctx, 0, "hello".to_string(), 1), Err(SolDateError::SelfReference));
    assert_eq!(ctx, before);
}

#[test]
fn send_message_counts_characters() {
    let (a, b) = (user(1), user(2));
    let content = "ß".repeat(MAX_CONTENT_LEN);
    assert!(content.len() > MAX_CONTENT_LEN);
    let mut ctx = on_match(a, fresh_match(a, b), 64);
    assert_eq!(send_message(&mut ctx, 0, content, 1), Ok(()));
}
