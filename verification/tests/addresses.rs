use anchor_lang::prelude::Pubkey;
use soldate::address::{
    block_address, direct_message_address, fields_of_block, fields_of_direct_message,
    fields_of_like, fields_of_match, fields_of_message, fields_of_profile, like_address,
    match_address, message_address, profile_address, seeds_of, signer_seeds, Derived, RecordKind,
    MAX_FIELDS, MAX_FIELD_LEN,
};
use soldate::keys::{canonical_pair, Address, Identity};

fn program() -> Address {
    Address::new([9u8; 32])
}

fn who(n: u8) -> Identity {
    let mut bytes = [0u8; 32];
    bytes[0] = n;
    bytes[31] = n.wrapping_mul(7);
    Identity::new(bytes)
}

fn outside(seeds: &[&[u8]]) -> Derived {
    let (key, bump) = Pubkey::find_program_address(seeds, &Pubkey::new_from_array([9u8; 32]));
    Derived { address: Address::new(key.to_bytes()), bump }
}

#[test]
fn derive_is_repeatable() {
    let fields = vec![vec![1u8; 32]];
    let first = soldate::address::derive(&program(), RecordKind::Profile, &fields);
    let second = soldate::address::derive(&program(), RecordKind::Profile, &fields);
    assert!(first.is_some());
    assert_eq!(first, second);
}

#[test]
fn derive_tells_kinds_and_fields_apart() {
    let kinds = [
        RecordKind::Profile,
        RecordKind::Like,
        RecordKind::Match,
        RecordKind::Message,
        RecordKind::Block,
    ];
    let corpus: Vec<Vec<Vec<u8>>> = vec![
        vec![vec![1u8; 32]],
        vec![vec![2u8; 32]],
        vec![vec![1u8; 32], vec![2u8; 32]],
        vec![vec![2u8; 32], vec![1u8; 32]],
        vec![vec![1u8; 32], vec![2u8; 32], vec![3u8; 8]],
        vec![vec![1u8; 32], vec![2u8; 32], vec![4u8; 8]],
    ];
    let mut seen: Vec<Address> = Vec::new();
    for kind in kinds {
        for fields in &corpus {
            let derived = soldate::address::derive(&program(), kind, fields).unwrap();
            assert!(!seen.contains(&derived.address));
            seen.push(derived.address);
        }
    }
    assert_eq!(seen.len(), 30);
}

#[test]
fn derive_depends_on_the_program() {
    let fields = vec![vec![1u8; 32]];
    let here = soldate::address::derive(&program(), RecordKind::Like, &fields).unwrap();
    let there =
        soldate::address::derive(&Address::new([8u8; 32]), RecordKind::Like, &fields).unwrap();
    assert_ne!(here.address, there.address);
}

#[test]
fn derive_refuses_no_fields() {
    let fields: Vec<Vec<u8>> = Vec::new();
    assert_eq!(soldate::address::derive(&program(), RecordKind::Profile, &fields), None);
}

#[test]
fn derive_refuses_an_empty_field() {
    let fields = vec![vec![1u8; 32], Vec::new()];
    assert_eq!(soldate::address::derive(&program(), RecordKind::Like, &fields), None);
}

#[test]
fn derive_refuses_an_oversized_field() {
    let fits = vec![vec![1u8; MAX_FIELD_LEN]];
    let oversized = vec![vec![1u8; MAX_FIELD_LEN + 1]];
    assert!(soldate::address::derive(&program(), RecordKind::Block, &fits).is_some());
    assert_eq!(soldate::address::derive(&program(), RecordKind::Block, &oversized), None);
}

#[test]
fn derive_refuses_too_many_fields() {
    let most: Vec<Vec<u8>> = (0..MAX_FIELDS).map(|i| vec![i as u8 + 1]).collect();
    let more: Vec<Vec<u8>> = (0..MAX_FIELDS + 1).map(|i| vec![i as u8 + 1]).collect();
    assert!(soldate::address::derive(&program(), RecordKind::Message, &most).is_some());
    assert_eq!(soldate::address::derive(&program(), RecordKind::Message, &more), None);
}

#[test]
fn derive_is_the_program_address_of_tag_and_fields() {
    let fields = vec![vec![5u8; 32], vec![6u8; 3]];
    let derived = soldate::address::derive(&program(), RecordKind::Match, &fields).unwrap();
    assert_eq!(derived, outside(&[b"match", &[5u8; 32], &[6u8; 3]]));
    assert_ne!(derived.address.bytes, [9u8; 32]);
    assert_ne!(derived.address.bytes, [5u8; 32]);
}

#[test]
fn profile_address_uses_the_owner() {
    let a = who(1);
    assert_eq!(profile_address(&program(), &a), Some(outside(&[b"profile", &a.bytes])));
    assert_ne!(profile_address(&program(), &a), profile_address(&program(), &who(2)));
}

#[test]
fn like_address_is_order_sensitive() {
    let (a, b) = (who(1), who(2));
    let forward = like_address(&program(), &a, &b).unwrap();
    let reverse = like_address(&program(), &b, &a).unwrap();
    assert_eq!(forward, outside(&[b"like", &a.bytes, &b.bytes]));
    assert_eq!(reverse, outside(&[b"like", &b.bytes, &a.bytes]));
    assert_ne!(forward.address, reverse.address);
}

#[test]
fn block_address_is_order_sensitive() {
    let (a, b) = (who(1), who(2));
    let forward = block_address(&program(), &a, &b).unwrap();
    let reverse = block_address(&program(), &b, &a).unwrap();
    assert_eq!(forward, outside(&[b"block", &a.bytes, &b.bytes]));
    assert_ne!(forward.address, reverse.address);
}

#[test]
fn match_address_is_order_independent() {
    let (a, b) = (who(3), who(200));
    let one = match_address(&program(), &a, &b).unwrap();
    let other = match_address(&program(), &b, &a).unwrap();
    assert_eq!(one, other);
    assert_eq!(one, outside(&[b"match", &a.bytes, &b.bytes]));
}

#[test]
fn canonical_pair_puts_the_smaller_identity_first() {
    let (a, b) = (who(3), who(200));
    assert_eq!(canonical_pair(a, b), (a, b));
    assert_eq!(canonical_pair(b, a), (a, b));
    assert_eq!(canonical_pair(a, a), (a, a));
}

#[test]
fn identities_are_ordered_byte_by_byte() {
    let mut low = [0u8; 32];
    let mut high = [0u8; 32];
    low[31] = 255;
    high[0] = 1;
    let (low, high) = (Identity::new(low), Identity::new(high));
    assert!(low.before(&high));
    assert!(!high.before(&low));
    assert!(!low.before(&low));
    assert_eq!(
        low.before(&high),
        Pubkey::new_from_array(low.bytes) < Pubkey::new_from_array(high.bytes)
    );
    let mut tie = [7u8; 32];
    let base = Identity::new(tie);
    tie[20] = 8;
    let later = Identity::new(tie);
    assert!(base.before(&later));
    assert!(base != later);
    assert!(base == Identity::new([7u8; 32]));
}

#[test]
fn message_address_uses_conversation_and_sequence() {
    let conversation = Address::new([4u8; 32]);
    let first = message_address(&program(), &conversation, 0).unwrap();
    let second = message_address(&program(), &conversation, 1).unwrap();
    assert_eq!(first, outside(&[b"message", &[4u8; 32], &0u64.to_le_bytes()]));
    assert_eq!(second, outside(&[b"message", &[4u8; 32], &1u64.to_le_bytes()]));
    assert_ne!(first.address, second.address);
    let far = message_address(&program(), &conversation, 0x0102030405060708).unwrap();
    assert_eq!(far, outside(&[b"message", &[4u8; 32], &[8, 7, 6, 5, 4, 3, 2, 1]]));
}

#[test]
fn direct_message_address_uses_sender_receiver_and_id() {
    let (a, b) = (who(1), who(2));
    let derived = direct_message_address(&program(), &a, &b, 77).unwrap();
    assert_eq!(derived, outside(&[b"message", &a.bytes, &b.bytes, &77u64.to_le_bytes()]));
    assert_ne!(Some(derived), direct_message_address(&program(), &b, &a, 77));
    assert_ne!(Some(derived), direct_message_address(&program(), &a, &b, 78));
}

#[test]
fn kinds_have_their_names_as_tags() {
    assert_eq!(RecordKind::Profile.tag(), b"profile".to_vec());
    assert_eq!(RecordKind::Like.tag(), b"like".to_vec());
    assert_eq!(RecordKind::Match.tag(), b"match".to_vec());
    assert_eq!(RecordKind::Message.tag(), b"message".to_vec());
    assert_eq!(RecordKind::Block.tag(), b"block".to_vec());
}

#[test]
fn identities_are_ordered_as_public_keys_are() {
    let mut corpus: Vec<[u8; 32]> = vec![[0u8; 32], [255u8; 32], [1u8; 32], [128u8; 32]];
    for i in 0..32 {
        let mut one = [0u8; 32];
        one[i] = 1;
        corpus.push(one);
        let mut mixed = [200u8; 32];
        mixed[i] = (i as u8).wrapping_mul(37);
        corpus.push(mixed);
    }
    for a in &corpus {
        for b in &corpus {
            let expected = Pubkey::new_from_array(*a) < Pubkey::new_from_array(*b);
            assert_eq!(Identity::new(*a).before(&Identity::new(*b)), expected);
            let smaller = Pubkey::new_from_array(*a).min(Pubkey::new_from_array(*b));
            let larger = Pubkey::new_from_array(*a).max(Pubkey::new_from_array(*b));
            let pair = canonical_pair(Identity::new(*a), Identity::new(*b));
            assert_eq!((pair.0.bytes, pair.1.bytes), (smaller.to_bytes(), larger.to_bytes()));
        }
    }
}

#[test]
fn fields_are_the_identities_in_order() {
    let (a, b) = (who(200), who(3));
    assert_eq!(fields_of_profile(&a), vec![a.bytes.to_vec()]);
    assert_eq!(fields_of_like(&a, &b), vec![a.bytes.to_vec(), b.bytes.to_vec()]);
    assert_eq!(fields_of_block(&a, &b), vec![a.bytes.to_vec(), b.bytes.to_vec()]);
    assert_eq!(fields_of_match(&a, &b), vec![b.bytes.to_vec(), a.bytes.to_vec()]);
    assert_eq!(fields_of_match(&b, &a), vec![b.bytes.to_vec(), a.bytes.to_vec()]);
    assert_eq!(
        fields_of_message(&Address::new([4u8; 32]), 258),
        vec![vec![4u8; 32], vec![2, 1, 0, 0, 0, 0, 0, 0]]
    );
    assert_eq!(
        fields_of_direct_message(&a, &b, 1),
        vec![a.bytes.to_vec(), b.bytes.to_vec(), vec![1, 0, 0, 0, 0, 0, 0, 0]]
    );
}

#[test]
fn seeds_are_tag_then_fields() {
    let fields = vec![vec![1u8, 2], vec![3u8]];
    assert_eq!(
        seeds_of(RecordKind::Like, &fields),
        vec![b"like".to_vec(), vec![1u8, 2], vec![3u8]]
    );
    assert_eq!(
        signer_seeds(RecordKind::Block, &fields, 254),
        vec![b"block".to_vec(), vec![1u8, 2], vec![3u8], vec![254u8]]
    );
    assert_eq!(seeds_of(RecordKind::Profile, &Vec::new()), vec![b"profile".to_vec()]);
}

#[test]
fn signer_seeds_reproduce_the_address() {
    let (a, b) = (who(1), who(2));
    let derived = like_address(&program(), &a, &b).unwrap();
    let seeds = signer_seeds(RecordKind::Like, &fields_of_like(&a, &b), derived.bump);
    let parts: Vec<&[u8]> = seeds.iter().map(|seed| seed.as_slice()).collect();
    let created =
        Pubkey::create_program_address(&parts, &Pubkey::new_from_array([9u8; 32])).unwrap();
    assert_eq!(created.to_bytes(), derived.address.bytes);
}
