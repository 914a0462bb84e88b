//! The records of the graph and the slots that hold them.

use vstd::prelude::*;
use crate::keys::{Address, Identity};

verus! {

/// Most characters in a profile's name.
pub const MAX_NAME_LEN: usize = 32;

/// Least age a profile may state.
pub const MIN_AGE: u8 = 18;

/// Most characters in a profile's bio.
pub const MAX_BIO_LEN: usize = 100;

/// Most interests a profile may list.
pub const MAX_INTERESTS: usize = 5;

/// Most characters in one interest.
pub const MAX_INTEREST_LEN: usize = 16;

/// Most characters in a profile's location.
pub const MAX_LOCATION_LEN: usize = 32;

/// Most matched identities a profile may list.
pub const MAX_MATCHES: usize = 64;

/// A storage slot: its address and the record it holds, if any. A slot
/// without a record is vacant.
#[derive(Clone, Debug, PartialEq, Eq)]
pub struct Slot<T> {
    pub address: Address,
    pub record: Option<T>,
}

/// A participant's profile, owned by `owner` alone.
#[derive(Clone, Debug, PartialEq, Eq)]
pub struct UserProfile {
    pub owner: Identity,
    pub name: String,
    pub age: u8,
    pub bio: String,
    pub interests: Vec<String>,
    pub location: String,
    pub is_active: bool,
    pub created_at: i64,
    pub matches: Vec<Identity>,
    pub bump: u8,
}

/// A profile as plain values.
pub struct ProfileView {
    pub owner: Identity,
    pub name: Seq<char>,
    pub age: u8,
    pub bio: Seq<char>,
    pub interests: Seq<Seq<char>>,
    pub location: Seq<char>,
    pub is_active: bool,
    pub created_at: i64,
    pub matches: Seq<Identity>,
    pub bump: u8,
}

impl View for UserProfile {
    type V = ProfileView;

    open spec fn view(&self) -> ProfileView {
        ProfileView {
            owner: self.owner,
            name: self.name@,
            age: self.age,
            bio: self.bio@,
            interests: self.interests.deep_view(),
            location: self.location@,
            is_active: self.is_active,
            created_at: self.created_at,
            matches: self.matches@,
            bump: self.bump,
        }
    }
}

/// The list `members` with `who` in it: unchanged where `who` is a member
/// already, else with `who` added at the end.
pub open spec fn with_member(members: Seq<Identity>, who: Identity) -> Seq<Identity> {
    if members.contains(who) {
        members
    } else {
        members.push(who)
    }
}

/// How often `who` occurs in the list.
pub open spec fn occurrences(members: Seq<Identity>, who: Identity) -> nat {
    members.filter(|m: Identity| m == who).len()
}

impl ProfileView {
    /// Whether the profile keeps every cap and lists no match twice.
    pub open spec fn valid(self) -> bool {
        &&& self.name.len() <= MAX_NAME_LEN
        &&& self.age >= MIN_AGE
        &&& self.bio.len() <= MAX_BIO_LEN
        &&& self.interests.len() <= MAX_INTERESTS
        &&& forall|i: int|
            0 <= i < self.interests.len() ==> (#[trigger] self.interests[i]).len()
                <= MAX_INTEREST_LEN
        &&& self.location.len() <= MAX_LOCATION_LEN
        &&& self.matches.len() <= MAX_MATCHES
        &&& self.matches.no_duplicates()
    }

    /// The profile with `who` among its matches.
    pub open spec fn matched_with(self, who: Identity) -> ProfileView {
        ProfileView { matches: with_member(self.matches, who), ..self }
    }

    /// Whether `who` can still be listed as a match: it is listed already,
    /// or the list has room.
    pub open spec fn has_room_for(self, who: Identity) -> bool {
        self.matches.contains(who) || self.matches.len() < MAX_MATCHES
    }
}

/// A directed like: `sender` likes `receiver`.
#[derive(Clone, Copy, Debug, PartialEq, Eq)]
pub struct Like {
    pub sender: Identity,
    pub receiver: Identity,
    pub timestamp: i64,
    pub is_mutual: bool,
    pub bump: u8,
}

/// A slot offered as proof that a like exists. It proves the like only
/// where it sits at the address derived for that like and is not vacant.
pub type Witness = Slot<Like>;

/// A reference from a match to one of its messages.
#[derive(Clone, Copy, Debug, PartialEq, Eq)]
pub struct MessageRef {
    pub address: Address,
    pub sender: Identity,
    pub timestamp: i64,
}

/// The match of a pair of identities, held in canonical order, and the
/// conversation they share.
#[derive(Clone, Debug, PartialEq, Eq)]
pub struct Match {
    pub user1: Identity,
    pub user2: Identity,
    pub created_at: i64,
    pub is_active: bool,
    pub message_count: u64,
    pub messages: Vec<MessageRef>,
    pub bump: u8,
}

/// A match as plain values.
pub struct MatchView {
    pub user1: Identity,
    pub user2: Identity,
    pub created_at: i64,
    pub is_active: bool,
    pub message_count: nat,
    pub messages: Seq<MessageRef>,
    pub bump: u8,
}

impl View for Match {
    type V = MatchView;

    open spec fn view(&self) -> MatchView {
        MatchView {
            user1: self.user1,
            user2: self.user2,
            created_at: self.created_at,
            is_active: self.is_active,
            message_count: self.message_count as nat,
            messages: self.messages@,
            bump: self.bump,
        }
    }
}

impl MatchView {
    /// Whether the pair is two identities in canonical order and every
    /// message sent so far is referenced.
    pub open spec fn valid(self) -> bool {
        &&& self.user1.precedes(self.user2)
        &&& self.messages.len() == self.message_count
    }

    /// Whether `who` is one of the two members.
    pub open spec fn has_member(self, who: Identity) -> bool {
        who == self.user1 || who == self.user2
    }

    /// The member that is not `who`, for a member `who`.
    pub open spec fn partner_of(self, who: Identity) -> Identity {
        if who == self.user1 {
            self.user2
        } else {
            self.user1
        }
    }

    /// The match after one more message: the counter is one higher and the
    /// reference stands at the end of the list.
    pub open spec fn appended(self, reference: MessageRef) -> MatchView {
        MatchView {
            message_count: self.message_count + 1,
            messages: self.messages.push(reference),
            ..self
        }
    }
}

/// A message, written once and never changed.
#[derive(Clone, Debug, PartialEq, Eq)]
pub struct MessageAccount {
    pub sender: Identity,
    pub receiver: Identity,
    pub content: String,
    pub timestamp: i64,
    pub bump: u8,
}

/// A message as plain values.
pub struct MessageView {
    pub sender: Identity,
    pub receiver: Identity,
    pub content: Seq<char>,
    pub timestamp: i64,
    pub bump: u8,
}

impl View for MessageAccount {
    type V = MessageView;

    open spec fn view(&self) -> MessageView {
        MessageView {
            sender: self.sender,
            receiver: self.receiver,
            content: self.content@,
            timestamp: self.timestamp,
            bump: self.bump,
        }
    }
}

/// A directed block: `blocker` blocks `blocked`.
#[derive(Clone, Copy, Debug, PartialEq, Eq)]
pub struct BlockedUser {
    pub blocker: Identity,
    pub blocked: Identity,
    pub timestamp: i64,
    pub bump: u8,
}

/// Whether a text has at most `cap` characters.
pub fn text_fits(text: &String, cap: usize) -> (r: bool)
    ensures
        r == (text@.len() <= cap),
{
    text.as_str().unicode_len() <= cap
}

/// Whether `who` is in the list.
pub fn is_member(members: &Vec<Identity>, who: &Identity) -> (r: bool)
    ensures
        r == members@.contains(*who),
{
    let mut i: usize = 0;
    while i < members.len()
        invariant
            i <= members.len(),
            forall|j: int| 0 <= j < i ==> members@[j] != *who,
        decreases members.len() - i,
    {
        if members[i] == *who {
            return true;
        }
        i += 1;
    }
    false
}

/// Adding a member is idempotent, and a list without duplicates stays so and
/// then holds the member exactly once.
pub proof fn lemma_with_member(members: Seq<Identity>, who: Identity)
    ensures
        with_member(members, who).contains(who),
        with_member(with_member(members, who), who) == with_member(members, who),
        members.no_duplicates() ==> with_member(members, who).no_duplicates(),
        members.no_duplicates() ==> occurrences(with_member(members, who), who) == 1,
        forall|other: Identity|
            other != who ==> (with_member(members, who).contains(other) <==> members.contains(
                other,
            )),
{
    let after = with_member(members, who);
    if !members.contains(who) {
        assert(after[members.len() as int] == who);
    }
    assert(after.contains(who));
    assert forall|other: Identity| other != who implies (after.contains(other)
        <==> members.contains(other)) by {
        if after.contains(other) {
            let i = choose|i: int| 0 <= i < after.len() && after[i] == other;
            assert(members[i] == other);
        }
        if members.contains(other) {
            let i = choose|i: int| 0 <= i < members.len() && members[i] == other;
            assert(after[i] == other);
        }
    }
    if members.no_duplicates() {
        lemma_single_occurrence(after, who);
    }
}

/// In a list without duplicates, a member occurs exactly once.
pub proof fn lemma_single_occurrence(members: Seq<Identity>, who: Identity)
    requires
        members.no_duplicates(),
        members.contains(who),
    ensures
        occurrences(members, who) == 1,
    decreases members.len(),
{
    reveal(Seq::filter);
    let last = members.last();
    let front = members.drop_last();
    assert(front.no_duplicates());
    if last == who {
        assert(!front.contains(who)) by {
            if front.contains(who) {
                let i = choose|i: int| 0 <= i < front.len() && front[i] == who;
                assert(members[i] == members[members.len() - 1]);
            }
        }
        lemma_no_occurrence(front, who);
    } else {
        let i = choose|i: int| 0 <= i < members.len() && members[i] == who;
        assert(front[i] == who);
        lemma_single_occurrence(front, who);
    }
}

/// A list that lacks `who` holds it zero times.
pub proof fn lemma_no_occurrence(members: Seq<Identity>, who: Identity)
    requires
        !members.contains(who),
    ensures
        occurrences(members, who) == 0,
    decreases members.len(),
{
    reveal(Seq::filter);
    if members.len() > 0 {
        let front = members.drop_last();
        assert(members[members.len() - 1] != who);
        assert forall|i: int| 0 <= i < front.len() implies front[i] != who by {
            assert(members[i] == front[i]);
        }
        lemma_no_occurrence(front, who);
    }
}

} // verus!
