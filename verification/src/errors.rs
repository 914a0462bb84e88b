//! The failures an operation can report.

use vstd::prelude::*;

verus! {

/// The cap or range that a rejected input broke.
#[derive(Clone, Copy, Debug, PartialEq, Eq, Structural)]
pub enum Violation {
    /// A name longer than the cap.
    NameTooLong,
    /// An age below the minimum.
    AgeTooYoung,
    /// A bio longer than the cap.
    BioTooLong,
    /// More interests than the cap.
    TooManyInterests,
    /// One interest longer than the cap.
    InterestTooLong,
    /// A location longer than the cap.
    LocationTooLong,
    /// A message content longer than the cap.
    MessageTooLong,
    /// A list of matched identities that is full.
    TooManyMatches,
    /// A conversation whose list of message references is full.
    ConversationFull,
    /// Seed fields from which no address can be derived.
    InvalidSeeds,
}

/// Why an operation was refused. A refused operation changes nothing.
#[derive(Clone, Copy, Debug, PartialEq, Eq, Structural)]
pub enum SolDateError {
    /// An input breaks a length or range cap.
    ValidationError(Violation),
    /// The address at which a record would be created is occupied.
    DuplicateRecord,
    /// The same identity stands on both sides of a relation.
    SelfReference,
    /// A profile taking part in the operation is not active.
    InactiveProfile,
    /// The addressed conversation does not exist or is not active.
    InactiveConversation,
    /// The caller is not the identity that controls the record.
    Unauthorized,
    /// The two likes do not prove a mutual relation.
    NotMutual,
    /// A record reference that the caller supplied does not resolve to the
    /// address derived for it, or no supplied witness does.
    PreconditionFailed,
}

/// The outcome of an operation that is refused for `refusal`, or carried
/// out where there is none.
pub open spec fn verdict(refusal: Option<SolDateError>) -> Result<(), SolDateError> {
    match refusal {
        Some(error) => Err(error),
        None => Ok(()),
    }
}

} // verus!
