//! The address deriver: from a record kind and ordered identity fields to the
//! storage address at which the record lives.

use vstd::prelude::*;
use vstd::bytes::{spec_u64_to_le_bytes, u64_to_le_bytes};
use crate::keys::{canonical, canonical_pair, Address, Identity};

verus! {

/// Most seed fields that an address can be derived from: the search takes
/// sixteen seeds at most, of which the tag and the bump seed are two.
pub const MAX_FIELDS: usize = 14;

/// Most bytes in one seed field.
pub const MAX_FIELD_LEN: usize = 32;

/// The kinds of record, each with its own address space.
#[derive(Clone, Copy, Debug, PartialEq, Eq, Structural)]
pub enum RecordKind {
    Profile,
    Like,
    Match,
    Message,
    Block,
}

/// A derived address with the bump seed that the derivation settled on.
#[derive(Clone, Copy, Debug, PartialEq, Eq)]
pub struct Derived {
    pub address: Address,
    pub bump: u8,
}

/// The first seed of a kind: its name in ASCII.
pub open spec fn kind_tag(kind: RecordKind) -> Seq<u8> {
    match kind {
        // "profile"
        RecordKind::Profile => seq![112u8, 114u8, 111u8, 102u8, 105u8, 108u8, 101u8],
        // "like"
        RecordKind::Like => seq![108u8, 105u8, 107u8, 101u8],
        // "match"
        RecordKind::Match => seq![109u8, 97u8, 116u8, 99u8, 104u8],
        // "message"
        RecordKind::Message => seq![109u8, 101u8, 115u8, 115u8, 97u8, 103u8, 101u8],
        // "block"
        RecordKind::Block => seq![98u8, 108u8, 111u8, 99u8, 107u8],
    }
}

/// Seed fields from which an address can be derived: at least one and at
/// most `MAX_FIELDS`, none empty and none longer than `MAX_FIELD_LEN`.
pub open spec fn valid_fields(fields: Seq<Seq<u8>>) -> bool {
    &&& 1 <= fields.len() <= MAX_FIELDS
    &&& forall|i: int| 0 <= i < fields.len() ==> 1 <= (#[trigger] fields[i]).len() <= MAX_FIELD_LEN
}

/// What the program-address search of the storage substrate returns for a
/// list of seeds under a program: the address and the bump seed, or nothing
/// where the seeds admit no address.
pub uninterp spec fn program_address(seeds: Seq<Seq<u8>>, program_id: Seq<u8>) -> Option<(Seq<u8>, u8)>;

/// A search result as plain values.
pub open spec fn found_view(found: Option<([u8; 32], u8)>) -> Option<(Seq<u8>, u8)> {
    match found {
        Some((key, bump)) => Some((key@, bump)),
        None => None,
    }
}

/// A search result as a derived address.
pub open spec fn located(found: Option<(Seq<u8>, u8)>) -> Option<Derived> {
    match found {
        Some((key, bump)) => Some(Derived { address: Address::of(key), bump }),
        None => None,
    }
}

/// The address of the record of `kind` that the ordered `fields` identify
/// under `program`, or nothing where the fields are invalid or admit no
/// address.
pub open spec fn derive_spec(program: Address, kind: RecordKind, fields: Seq<Seq<u8>>) -> Option<
    Derived,
> {
    if valid_fields(fields) {
        located(program_address(seq![kind_tag(kind)] + fields, program@))
    } else {
        None
    }
}

/// Calls `Pubkey::try_find_program_address` of `anchor_lang`, which hashes
/// the seeds with one bump seed after the other until the hash is a usable
/// address. Nothing is proved of the search. The contract claims one thing
/// only: what comes back is a function of the bytes of the seeds and of the
/// program id, here named `program_address`. It claims neither which
/// address comes back nor that one does.
#[verifier::external_body]
fn find_program_address(seeds: &Vec<Vec<u8>>, program_id: &[u8; 32]) -> (r: Option<([u8; 32], u8)>)
    ensures
        found_view(r) == program_address(seeds.deep_view(), program_id@),
{
    let parts: Vec<&[u8]> = seeds.iter().map(|seed| seed.as_slice()).collect();
    let program = anchor_lang::prelude::Pubkey::new_from_array(*program_id);
    anchor_lang::prelude::Pubkey::try_find_program_address(&parts, &program).map(
        |(key, bump)| (key.to_bytes(), bump),
    )
}

impl RecordKind {
    /// The first seed of the kind.
    pub fn tag(&self) -> (t: Vec<u8>)
        ensures
            t@ == kind_tag(*self),
    {
        match self {
            RecordKind::Profile => vec![112u8, 114u8, 111u8, 102u8, 105u8, 108u8, 101u8],
            RecordKind::Like => vec![108u8, 105u8, 107u8, 101u8],
            RecordKind::Match => vec![109u8, 97u8, 116u8, 99u8, 104u8],
            RecordKind::Message => vec![109u8, 101u8, 115u8, 115u8, 97u8, 103u8, 101u8],
            RecordKind::Block => vec![98u8, 108u8, 111u8, 99u8, 107u8],
        }
    }
}

/// A seed list seen as plain values holds, at each index, the bytes of the
/// seed at that index.
proof fn lemma_deep_index(seeds: Vec<Vec<u8>>, j: int)
    requires
        0 <= j < seeds.len(),
    ensures
        seeds.deep_view().len() == seeds.len(),
        seeds.deep_view()[j] == seeds@[j]@,
{
    assert(seeds.deep_view()[j] =~= seeds@[j]@);
}

/// Whether the fields are valid seeds.
pub fn fields_are_valid(fields: &Vec<Vec<u8>>) -> (ok: bool)
    ensures
        ok == valid_fields(fields.deep_view()),
{
    if fields.len() < 1 || fields.len() > MAX_FIELDS {
        return false;
    }
    let mut i: usize = 0;
    while i < fields.len()
        invariant
            i <= fields.len(),
            forall|j: int| 0 <= j < i ==> 1 <= (#[trigger] fields.deep_view()[j]).len() <= MAX_FIELD_LEN,
        decreases fields.len() - i,
    {
        let n = fields[i].len();
        proof {
            lemma_deep_index(*fields, i as int);
        }
        if n < 1 || n > MAX_FIELD_LEN {
            return false;
        }
        i += 1;
    }
    true
}

/// What `derive` makes of the search result for valid fields.
pub fn settle(found: Option<([u8; 32], u8)>) -> (r: Option<Derived>)
    ensures
        r == located(found_view(found)),
{
    match found {
        Some((key, bump)) => {
            let address = Address::new(key);
            proof {
                address.lemma_of_view();
            }
            Some(Derived { address, bump })
        },
        None => None,
    }
}

/// The seeds of a record: the tag of its kind, then its fields.
pub fn seeds_of(kind: RecordKind, fields: &Vec<Vec<u8>>) -> (seeds: Vec<Vec<u8>>)
    ensures
        seeds.deep_view() == seq![kind_tag(kind)] + fields.deep_view(),
{
    let mut seeds: Vec<Vec<u8>> = Vec::new();
    seeds.push(kind.tag());
    let mut i: usize = 0;
    while i < fields.len()
        invariant
            i <= fields.len(),
            seeds.len() == i + 1,
            seeds@[0]@ == kind_tag(kind),
            forall|j: int| 0 <= j < i ==> (#[trigger] seeds@[j + 1])@ == fields@[j]@,
        decreases fields.len() - i,
    {
        let field = fields[i].clone();
        assert(field@ =~= fields@[i as int]@);
        seeds.push(field);
        i += 1;
    }
    proof {
        let whole = seq![kind_tag(kind)] + fields.deep_view();
        assert(seeds.deep_view().len() == whole.len());
        assert forall|j: int| 0 <= j < whole.len() implies seeds.deep_view()[j] == whole[j] by {
            lemma_deep_index(seeds, j);
            if j > 0 {
                lemma_deep_index(*fields, j - 1);
                assert(seeds@[(j - 1) + 1]@ == fields@[j - 1]@);
            }
        }
        assert(seeds.deep_view() =~= whole);
    }
    seeds
}

/// The seeds under which the program signs for the address of a record:
/// the seeds of the record, then the bump seed of its address.
pub fn signer_seeds(kind: RecordKind, fields: &Vec<Vec<u8>>, bump: u8) -> (seeds: Vec<Vec<u8>>)
    ensures
        seeds.deep_view() == seq![kind_tag(kind)] + fields.deep_view() + seq![seq![bump]],
{
    let mut seeds = seeds_of(kind, fields);
    let ghost front = seeds;
    let mut last: Vec<u8> = Vec::new();
    last.push(bump);
    assert(last@ =~= seq![bump]);
    seeds.push(last);
    proof {
        let whole = front.deep_view() + seq![seq![bump]];
        assert(seeds.deep_view().len() == whole.len());
        assert forall|j: int| 0 <= j < whole.len() implies seeds.deep_view()[j] == whole[j] by {
            lemma_deep_index(seeds, j);
            if j < front.len() {
                lemma_deep_index(front, j);
            }
        }
        assert(seeds.deep_view() =~= whole);
    }
    seeds
}

/// Derives the address of the record of `kind` that `fields` identify under
/// `program`. Fails on invalid fields, and where the fields admit no
/// address.
pub fn derive(program: &Address, kind: RecordKind, fields: &Vec<Vec<u8>>) -> (r: Option<Derived>)
    ensures
        r == derive_spec(*program, kind, fields.deep_view()),
{
    if !fields_are_valid(fields) {
        return None;
    }
    let seeds = seeds_of(kind, fields);
    settle(find_program_address(&seeds, &program.bytes))
}

/// The fields that identify a profile: its owner.
pub open spec fn profile_fields(owner: Identity) -> Seq<Seq<u8>> {
    seq![owner@]
}

/// The fields that identify a like: sender, then receiver.
pub open spec fn like_fields(sender: Identity, receiver: Identity) -> Seq<Seq<u8>> {
    seq![sender@, receiver@]
}

/// The fields that identify the match of the pair `{a, b}`: the two
/// identities in canonical order.
pub open spec fn match_fields(a: Identity, b: Identity) -> Seq<Seq<u8>> {
    seq![canonical(a, b).0@, canonical(a, b).1@]
}

/// The fields that identify a message of a conversation: the address of the
/// conversation, then the sequence number in eight bytes, lowest first.
pub open spec fn message_fields(conversation: Address, sequence: u64) -> Seq<Seq<u8>> {
    seq![conversation@, spec_u64_to_le_bytes(sequence)]
}

/// The fields that identify a message filed under an id of the sender's own
/// choosing: sender, receiver, then the id in eight bytes, lowest first.
pub open spec fn direct_message_fields(sender: Identity, receiver: Identity, message_id: u64) -> Seq<
    Seq<u8>,
> {
    seq![sender@, receiver@, spec_u64_to_le_bytes(message_id)]
}

/// The fields that identify a block: blocker, then blocked.
pub open spec fn block_fields(blocker: Identity, blocked: Identity) -> Seq<Seq<u8>> {
    seq![blocker@, blocked@]
}

/// Where the profile of `owner` lives.
pub open spec fn profile_at(program: Address, owner: Identity) -> Option<Derived> {
    derive_spec(program, RecordKind::Profile, profile_fields(owner))
}

/// Where the like that `sender` gave `receiver` lives. The order of the two
/// identities matters.
pub open spec fn like_at(program: Address, sender: Identity, receiver: Identity) -> Option<Derived> {
    derive_spec(program, RecordKind::Like, like_fields(sender, receiver))
}

/// Where the match of the pair `{a, b}` lives. The order of the two
/// identities does not matter.
pub open spec fn match_at(program: Address, a: Identity, b: Identity) -> Option<Derived> {
    derive_spec(program, RecordKind::Match, match_fields(a, b))
}

/// Where the message filed under `sequence` in a conversation lives.
pub open spec fn message_at(program: Address, conversation: Address, sequence: u64) -> Option<
    Derived,
> {
    derive_spec(program, RecordKind::Message, message_fields(conversation, sequence))
}

/// Where the message that `sender` filed for `receiver` under an id of the
/// sender's own choosing lives.
pub open spec fn direct_message_at(
    program: Address,
    sender: Identity,
    receiver: Identity,
    message_id: u64,
) -> Option<Derived> {
    derive_spec(program, RecordKind::Message, direct_message_fields(sender, receiver, message_id))
}

/// Where the block that `blocker` declared of `blocked` lives. The order of
/// the two identities matters.
pub open spec fn block_at(program: Address, blocker: Identity, blocked: Identity) -> Option<
    Derived,
> {
    derive_spec(program, RecordKind::Block, block_fields(blocker, blocked))
}

fn key_field(key: &[u8; 32]) -> (field: Vec<u8>)
    ensures
        field@ == key@,
{
    let mut field: Vec<u8> = Vec::new();
    let mut i: usize = 0;
    while i < 32
        invariant
            i <= 32,
            field@ == key@.take(i as int),
        decreases 32 - i,
    {
        field.push(key[i]);
        assert(field@ =~= key@.take(i + 1));
        i += 1;
    }
    assert(key@.take(32) =~= key@);
    field
}

fn one_field(first: Vec<u8>) -> (fields: Vec<Vec<u8>>)
    ensures
        fields.deep_view() == seq![first@],
{
    let mut fields: Vec<Vec<u8>> = Vec::new();
    fields.push(first);
    proof {
        lemma_deep_index(fields, 0);
        assert(fields.deep_view() =~= seq![first@]);
    }
    fields
}

fn two_fields(first: Vec<u8>, second: Vec<u8>) -> (fields: Vec<Vec<u8>>)
    ensures
        fields.deep_view() == seq![first@, second@],
{
    let mut fields: Vec<Vec<u8>> = Vec::new();
    fields.push(first);
    fields.push(second);
    proof {
        lemma_deep_index(fields, 0);
        lemma_deep_index(fields, 1);
        assert(fields.deep_view() =~= seq![first@, second@]);
    }
    fields
}

fn three_fields(first: Vec<u8>, second: Vec<u8>, third: Vec<u8>) -> (fields: Vec<Vec<u8>>)
    ensures
        fields.deep_view() == seq![first@, second@, third@],
{
    let mut fields: Vec<Vec<u8>> = Vec::new();
    fields.push(first);
    fields.push(second);
    fields.push(third);
    proof {
        lemma_deep_index(fields, 0);
        lemma_deep_index(fields, 1);
        lemma_deep_index(fields, 2);
        assert(fields.deep_view() =~= seq![first@, second@, third@]);
    }
    fields
}

/// The fields that identify the profile of `owner`.
pub fn fields_of_profile(owner: &Identity) -> (fields: Vec<Vec<u8>>)
    ensures
        fields.deep_view() == profile_fields(*owner),
{
    one_field(key_field(&owner.bytes))
}

/// The fields that identify the like that `sender` gave `receiver`.
pub fn fields_of_like(sender: &Identity, receiver: &Identity) -> (fields: Vec<Vec<u8>>)
    ensures
        fields.deep_view() == like_fields(*sender, *receiver),
{
    two_fields(key_field(&sender.bytes), key_field(&receiver.bytes))
}

/// The fields that identify the match of the pair `{a, b}`, whichever of
/// the two is named first.
pub fn fields_of_match(a: &Identity, b: &Identity) -> (fields: Vec<Vec<u8>>)
    ensures
        fields.deep_view() == match_fields(*a, *b),
{
    let pair = canonical_pair(*a, *b);
    two_fields(key_field(&pair.0.bytes), key_field(&pair.1.bytes))
}

/// The fields that identify the message filed under `sequence` in the
/// conversation at `conversation`.
pub fn fields_of_message(conversation: &Address, sequence: u64) -> (fields: Vec<Vec<u8>>)
    ensures
        fields.deep_view() == message_fields(*conversation, sequence),
{
    two_fields(key_field(&conversation.bytes), u64_to_le_bytes(sequence))
}

/// The fields that identify the message that `sender` filed for `receiver`
/// under `message_id`.
pub fn fields_of_direct_message(sender: &Identity, receiver: &Identity, message_id: u64) -> (fields:
    Vec<Vec<u8>>)
    ensures
        fields.deep_view() == direct_message_fields(*sender, *receiver, message_id),
{
    three_fields(key_field(&sender.bytes), key_field(&receiver.bytes), u64_to_le_bytes(message_id))
}

/// The fields that identify the block that `blocker` declared of `blocked`.
pub fn fields_of_block(blocker: &Identity, blocked: &Identity) -> (fields: Vec<Vec<u8>>)
    ensures
        fields.deep_view() == block_fields(*blocker, *blocked),
{
    two_fields(key_field(&blocker.bytes), key_field(&blocked.bytes))
}

/// Derives the address of the profile of `owner`.
pub fn profile_address(program: &Address, owner: &Identity) -> (r: Option<Derived>)
    ensures
        r == profile_at(*program, *owner),
{
    self::derive(program, RecordKind::Profile, &fields_of_profile(owner))
}

/// Derives the address of the like that `sender` gave `receiver`.
pub fn like_address(program: &Address, sender: &Identity, receiver: &Identity) -> (r: Option<
    Derived,
>)
    ensures
        r == like_at(*program, *sender, *receiver),
{
    self::derive(program, RecordKind::Like, &fields_of_like(sender, receiver))
}

/// Derives the address of the match of the pair `{a, b}`, whichever of the
/// two is named first.
pub fn match_address(program: &Address, a: &Identity, b: &Identity) -> (r: Option<Derived>)
    ensures
        r == match_at(*program, *a, *b),
{
    self::derive(program, RecordKind::Match, &fields_of_match(a, b))
}

/// Derives the address of the message filed under `sequence` in the
/// conversation at `conversation`.
pub fn message_address(program: &Address, conversation: &Address, sequence: u64) -> (r: Option<
    Derived,
>)
    ensures
        r == message_at(*program, *conversation, sequence),
{
    self::derive(program, RecordKind::Message, &fields_of_message(conversation, sequence))
}

/// Derives the address of the message that `sender` filed for `receiver`
/// under `message_id`.
pub fn direct_message_address(
    program: &Address,
    sender: &Identity,
    receiver: &Identity,
    message_id: u64,
) -> (r: Option<Derived>)
    ensures
        r == direct_message_at(*program, *sender, *receiver, message_id),
{
    self::derive(
        program,
        RecordKind::Message,
        &fields_of_direct_message(sender, receiver, message_id),
    )
}

/// Derives the address of the block that `blocker` declared of `blocked`.
pub fn block_address(program: &Address, blocker: &Identity, blocked: &Identity) -> (r: Option<
    Derived,
>)
    ensures
        r == block_at(*program, *blocker, *blocked),
{
    self::derive(program, RecordKind::Block, &fields_of_block(blocker, blocked))
}

/// Derivation is a function of its inputs: the same program, kind and
/// fields always give the same address and bump seed.
pub proof fn lemma_derive_deterministic(
    program: Address,
    kind: RecordKind,
    fields: Seq<Seq<u8>>,
    again: Seq<Seq<u8>>,
)
    requires
        fields.len() == again.len(),
        forall|i: int| 0 <= i < fields.len() ==> fields[i] =~= again[i],
    ensures
        derive_spec(program, kind, fields) == derive_spec(program, kind, again),
{
    assert(fields =~= again);
}

/// The seeds handed to the search tell kinds and fields apart: two seed
/// lists are the same only for the same kind and the same fields. Whether
/// two different seed lists can share an address rests with the search
/// alone.
pub proof fn lemma_seeds_tell_apart(
    kind: RecordKind,
    fields: Seq<Seq<u8>>,
    other_kind: RecordKind,
    other_fields: Seq<Seq<u8>>,
)
    requires
        seq![kind_tag(kind)] + fields == seq![kind_tag(other_kind)] + other_fields,
    ensures
        kind == other_kind,
        fields == other_fields,
{
    let seeds = seq![kind_tag(kind)] + fields;
    let other_seeds = seq![kind_tag(other_kind)] + other_fields;
    assert(seeds[0] == kind_tag(kind));
    assert(other_seeds[0] == kind_tag(other_kind));
    assert(kind_tag(kind)[0] == kind_tag(other_kind)[0]);
    assert(kind_tag(kind)[1] == kind_tag(other_kind)[1]);
    assert(kind_tag(kind).len() == kind_tag(other_kind).len());
    assert(seeds.len() == other_seeds.len());
    assert forall|i: int| 0 <= i < fields.len() implies fields[i] == other_fields[i] by {
        assert(seeds[i + 1] == fields[i]);
        assert(other_seeds[i + 1] == other_fields[i]);
    }
    assert(fields =~= other_fields);
}

/// The fields of a like tell ordered pairs apart: two likes have the same
/// fields only for the same sender and the same receiver. The same holds of
/// blocks, which have the fields of likes.
pub proof fn lemma_like_fields_tell_apart(
    sender: Identity,
    receiver: Identity,
    other_sender: Identity,
    other_receiver: Identity,
)
    requires
        like_fields(sender, receiver) == like_fields(other_sender, other_receiver),
    ensures
        sender == other_sender,
        receiver == other_receiver,
        block_fields(sender, receiver) == like_fields(sender, receiver),
{
    let fields = like_fields(sender, receiver);
    let other = like_fields(other_sender, other_receiver);
    assert(fields[0] == other[0]);
    assert(fields[1] == other[1]);
    sender.lemma_same_bytes(other_sender);
    receiver.lemma_same_bytes(other_receiver);
}

/// The fields of a match tell unordered pairs apart: two matches have the
/// same fields only for the same two members, in either order.
pub proof fn lemma_match_fields_tell_apart(a: Identity, b: Identity, c: Identity, d: Identity)
    requires
        match_fields(a, b) == match_fields(c, d),
    ensures
        (a == c && b == d) || (a == d && b == c),
{
    let fields = match_fields(a, b);
    let other = match_fields(c, d);
    assert(fields[0] == other[0]);
    assert(fields[1] == other[1]);
    canonical(a, b).0.lemma_same_bytes(canonical(c, d).0);
    canonical(a, b).1.lemma_same_bytes(canonical(c, d).1);
}

/// The address of a match does not depend on which of its two members is
/// named first.
pub proof fn lemma_match_address_symmetric(program: Address, a: Identity, b: Identity)
    ensures
        match_at(program, a, b) == match_at(program, b, a),
{
    crate::keys::lemma_canonical_symmetric(a, b);
}

} // verus!
