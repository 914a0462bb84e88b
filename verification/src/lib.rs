//! A relationship-graph engine for a dating application.
//!
//! Every record (profile, like, match, message, block) lives in a storage
//! slot whose address is derived from the identities the record relates, so
//! no index is needed to find it. The store itself is not part of the
//! engine. An operation is handed the slots and records it works on, decides
//! whether it is carried out, and changes them in place; the caller loads
//! them before and stores them after. A refused operation changes nothing.
//!
//! The engine never takes the caller's word for where a record lives. A
//! slot in which a record is to be created must sit at the address derived
//! for that record, and a slot offered as proof that another record exists
//! (a witness) is trusted only where it sits at the address derived for
//! that record and is not vacant.
//!
//! Each operation that derives addresses comes in two forms: one that
//! derives them itself, and one, named with `_at`, that is given them.
//!
//! - `keys`: identities, addresses, the order on identities
//! - `address`: the address deriver
//! - `records`: the records and their slots
//! - `errors`: why an operation is refused
//! - `profile`: creating and editing profiles
//! - `relationship`: likes, mutual likes and matches
//! - `conversation`: messages, gated on a match or on a like
//! - `moderation`: blocks

pub mod address;
pub mod conversation;
pub mod errors;
pub mod keys;
pub mod moderation;
pub mod profile;
pub mod records;
pub mod relationship;
