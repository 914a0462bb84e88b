//! The profile manager: creating a profile and editing it field by field.

use vstd::prelude::*;
use crate::address::{profile_address, profile_at, Derived};
use crate::errors::{verdict, SolDateError, Violation};
use crate::keys::{Address, Identity};
use crate::records::{
    text_fits, ProfileView, Slot, UserProfile, MAX_BIO_LEN, MAX_INTERESTS, MAX_INTEREST_LEN,
    MAX_LOCATION_LEN, MAX_NAME_LEN, MIN_AGE,
};

verus! {

/// What `create_profile` works on: the caller and the slot in which the
/// caller's profile is to be created.
#[derive(Clone, Debug, PartialEq, Eq)]
pub struct CreateProfile {
    pub program_id: Address,
    pub user: Identity,
    pub profile: Slot<UserProfile>,
}

/// What `update_profile` works on: the caller and the profile to edit.
#[derive(Clone, Debug, PartialEq, Eq)]
pub struct UpdateProfile {
    pub user: Identity,
    pub profile: UserProfile,
}

/// Whether some interest in the list is longer than the cap.
pub open spec fn some_interest_too_long(interests: Seq<Seq<char>>) -> bool {
    exists|i: int| 0 <= i < interests.len() && (#[trigger] interests[i]).len() > MAX_INTEREST_LEN
}

/// The first cap that the fields present break, in the order name, bio,
/// age, interests, location; nothing where they keep every cap. A field
/// that is absent breaks none.
pub open spec fn patch_violation(
    name: Option<Seq<char>>,
    age: Option<u8>,
    bio: Option<Seq<char>>,
    interests: Option<Seq<Seq<char>>>,
    location: Option<Seq<char>>,
) -> Option<Violation> {
    if name is Some && name->0.len() > MAX_NAME_LEN {
        Some(Violation::NameTooLong)
    } else if bio is Some && bio->0.len() > MAX_BIO_LEN {
        Some(Violation::BioTooLong)
    } else if age is Some && age->0 < MIN_AGE {
        Some(Violation::AgeTooYoung)
    } else if interests is Some && interests->0.len() > MAX_INTERESTS {
        Some(Violation::TooManyInterests)
    } else if interests is Some && some_interest_too_long(interests->0) {
        Some(Violation::InterestTooLong)
    } else if location is Some && location->0.len() > MAX_LOCATION_LEN {
        Some(Violation::LocationTooLong)
    } else {
        None
    }
}

/// The profile with each field that is present put in place of its own.
pub open spec fn patched(
    profile: ProfileView,
    name: Option<Seq<char>>,
    age: Option<u8>,
    bio: Option<Seq<char>>,
    interests: Option<Seq<Seq<char>>>,
    location: Option<Seq<char>>,
) -> ProfileView {
    ProfileView {
        name: if name is Some { name->0 } else { profile.name },
        age: if age is Some { age->0 } else { profile.age },
        bio: if bio is Some { bio->0 } else { profile.bio },
        interests: if interests is Some { interests->0 } else { profile.interests },
        location: if location is Some { location->0 } else { profile.location },
        ..profile
    }
}

/// Why a profile is not created, if it is not: a field breaks a cap; no
/// address can be derived for the caller's profile; the slot supplied is
/// not the one at that address; the slot is occupied.
pub open spec fn create_profile_refusal(
    ctx: CreateProfile,
    name: Seq<char>,
    age: u8,
    bio: Seq<char>,
    interests: Seq<Seq<char>>,
    location: Seq<char>,
    place: Option<Derived>,
) -> Option<SolDateError> {
    let violation = patch_violation(Some(name), Some(age), Some(bio), Some(interests), Some(location));
    if violation is Some {
        Some(SolDateError::ValidationError(violation->0))
    } else if place is None {
        Some(SolDateError::ValidationError(Violation::InvalidSeeds))
    } else if ctx.profile.address != place->0.address {
        Some(SolDateError::PreconditionFailed)
    } else if ctx.profile.record is Some {
        Some(SolDateError::DuplicateRecord)
    } else {
        None
    }
}

/// Why a profile is not edited, if it is not: a field that is present
/// breaks a cap; the caller does not own the profile.
pub open spec fn update_profile_refusal(
    ctx: UpdateProfile,
    name: Option<Seq<char>>,
    age: Option<u8>,
    bio: Option<Seq<char>>,
    interests: Option<Seq<Seq<char>>>,
    location: Option<Seq<char>>,
) -> Option<SolDateError> {
    let violation = patch_violation(name, age, bio, interests, location);
    if violation is Some {
        Some(SolDateError::ValidationError(violation->0))
    } else if ctx.profile.owner != ctx.user {
        Some(SolDateError::Unauthorized)
    } else {
        None
    }
}

fn interests_violation(interests: &Vec<String>) -> (r: Option<Violation>)
    ensures
        r == patch_violation(None, None, None, Some(interests.deep_view()), None),
{
    if interests.len() > MAX_INTERESTS {
        return Some(Violation::TooManyInterests);
    }
    let ghost list = interests.deep_view();
    let mut i: usize = 0;
    while i < interests.len()
        invariant
            i <= interests.len(),
            interests.len() <= MAX_INTERESTS,
            list == interests.deep_view(),
            forall|j: int| 0 <= j < i ==> (#[trigger] list[j]).len() <= MAX_INTEREST_LEN,
        decreases interests.len() - i,
    {
        assert(list[i as int] == interests@[i as int]@);
        if !text_fits(&interests[i], MAX_INTEREST_LEN) {
            assert(list[i as int].len() > MAX_INTEREST_LEN);
            return Some(Violation::InterestTooLong);
        }
        i += 1;
    }
    None
}

fn first_violation(
    name: &Option<String>,
    age: Option<u8>,
    bio: &Option<String>,
    interests: &Option<Vec<String>>,
    location: &Option<String>,
) -> (r: Option<Violation>)
    ensures
        r == patch_violation(
            name.deep_view(),
            age,
            bio.deep_view(),
            interests.deep_view(),
            location.deep_view(),
        ),
{
    match name {
        Some(text) => {
            if !text_fits(text, MAX_NAME_LEN) {
                return Some(Violation::NameTooLong);
            }
        },
        None => {},
    }
    match bio {
        Some(text) => {
            if !text_fits(text, MAX_BIO_LEN) {
                return Some(Violation::BioTooLong);
            }
        },
        None => {},
    }
    match age {
        Some(years) => {
            if years < MIN_AGE {
                return Some(Violation::AgeTooYoung);
            }
        },
        None => {},
    }
    match interests {
        Some(list) => {
            let found = interests_violation(list);
            if found.is_some() {
                return found;
            }
        },
        None => {},
    }
    match location {
        Some(text) => {
            if !text_fits(text, MAX_LOCATION_LEN) {
                return Some(Violation::LocationTooLong);
            }
        },
        None => {},
    }
    None
}

/// What `create_profile_at` leaves behind. A refused call changes nothing.
/// A call carried out fills the slot with a profile of the caller that
/// holds the fields given, is active, was created at `now`, lists no match
/// and carries the bump seed of its address.
pub open spec fn profile_created(
    before: CreateProfile,
    after: CreateProfile,
    outcome: Result<(), SolDateError>,
    name: Seq<char>,
    age: u8,
    bio: Seq<char>,
    interests: Seq<Seq<char>>,
    location: Seq<char>,
    now: i64,
    place: Option<Derived>,
) -> bool {
    &&& outcome == verdict(
        create_profile_refusal(before, name, age, bio, interests, location, place),
    )
    &&& outcome is Err ==> after == before
    &&& outcome is Ok ==> {
        &&& after.program_id == before.program_id
        &&& after.user == before.user
        &&& after.profile.address == before.profile.address
        &&& after.profile.record is Some
        &&& after.profile.record->0@ == (ProfileView {
            owner: before.user,
            name,
            age,
            bio,
            interests,
            location,
            is_active: true,
            created_at: now,
            matches: Seq::empty(),
            bump: place->0.bump,
        })
    }
}

/// Creates the caller's profile in the slot supplied, given the address
/// `place` derived for it.
pub fn create_profile_at(
    ctx: &mut CreateProfile,
    name: String,
    age: u8,
    bio: String,
    interests: Vec<String>,
    location: String,
    now: i64,
    place: Option<Derived>,
) -> (r: Result<(), SolDateError>)
    ensures
        profile_created(
            *old(ctx),
            *final(ctx),
            r,
            name@,
            age,
            bio@,
            interests.deep_view(),
            location@,
            now,
            place,
        ),
        r is Ok ==> final(ctx).profile.record->0@.valid(),
        old(ctx).profile.record is Some ==> r is Err,
{
    if !text_fits(&name, MAX_NAME_LEN) {
        return Err(SolDateError::ValidationError(Violation::NameTooLong));
    }
    if !text_fits(&bio, MAX_BIO_LEN) {
        return Err(SolDateError::ValidationError(Violation::BioTooLong));
    }
    if age < MIN_AGE {
        return Err(SolDateError::ValidationError(Violation::AgeTooYoung));
    }
    match interests_violation(&interests) {
        Some(violation) => {
            return Err(SolDateError::ValidationError(violation));
        },
        None => {},
    }
    if !text_fits(&location, MAX_LOCATION_LEN) {
        return Err(SolDateError::ValidationError(Violation::LocationTooLong));
    }
    let place = match place {
        Some(derived) => derived,
        None => {
            return Err(SolDateError::ValidationError(Violation::InvalidSeeds));
        },
    };
    if ctx.profile.address != place.address {
        return Err(SolDateError::PreconditionFailed);
    }
    if ctx.profile.record.is_some() {
        return Err(SolDateError::DuplicateRecord);
    }
    ctx.profile.record = Some(
        UserProfile {
            owner: ctx.user,
            name,
            age,
            bio,
            interests,
            location,
            is_active: true,
            created_at: now,
            matches: Vec::new(),
            bump: place.bump,
        },
    );
    Ok(())
}

/// Creates the caller's profile at the address derived from the caller's
/// identity.
pub fn create_profile(
    ctx: &mut CreateProfile,
    name: String,
    age: u8,
    bio: String,
    interests: Vec<String>,
    location: String,
    now: i64,
) -> (r: Result<(), SolDateError>)
    ensures
        profile_created(
            *old(ctx),
            *final(ctx),
            r,
            name@,
            age,
            bio@,
            interests.deep_view(),
            location@,
            now,
            profile_at(old(ctx).program_id, old(ctx).user),
        ),
        r is Ok ==> final(ctx).profile.record->0@.valid(),
        old(ctx).profile.record is Some ==> r is Err,
{
    let place = profile_address(&ctx.program_id, &ctx.user);
    create_profile_at(ctx, name, age, bio, interests, location, now, place)
}

/// Edits the caller's own profile. Every field that is present is checked
/// against its cap before any is applied: either all are applied or none.
pub fn update_profile(
    ctx: &mut UpdateProfile,
    name: Option<String>,
    age: Option<u8>,
    bio: Option<String>,
    interests: Option<Vec<String>>,
    location: Option<String>,
) -> (r: Result<(), SolDateError>)
    ensures
        r == verdict(
            update_profile_refusal(
                *old(ctx),
                name.deep_view(),
                age,
                bio.deep_view(),
                interests.deep_view(),
                location.deep_view(),
            ),
        ),
        r is Err ==> *final(ctx) == *old(ctx),
        r is Ok ==> final(ctx).user == old(ctx).user,
        r is Ok ==> final(ctx).profile@ == patched(
            old(ctx).profile@,
            name.deep_view(),
            age,
            bio.deep_view(),
            interests.deep_view(),
            location.deep_view(),
        ),
        bio is Some && bio->0@.len() > MAX_BIO_LEN ==> r is Err && r->Err_0 is ValidationError
            && *final(ctx) == *old(ctx),
        r is Ok && old(ctx).profile@.valid() ==> final(ctx).profile@.valid(),
{
    match first_violation(&name, age, &bio, &interests, &location) {
        Some(violation) => {
            return Err(SolDateError::ValidationError(violation));
        },
        None => {},
    }
    if ctx.profile.owner != ctx.user {
        return Err(SolDateError::Unauthorized);
    }
    match name {
        Some(text) => {
            ctx.profile.name = text;
        },
        None => {},
    }
    match bio {
        Some(text) => {
            ctx.profile.bio = text;
        },
        None => {},
    }
    match age {
        Some(years) => {
            ctx.profile.age = years;
        },
        None => {},
    }
    match interests {
        Some(list) => {
            ctx.profile.interests = list;
        },
        None => {},
    }
    match location {
        Some(text) => {
            ctx.profile.location = text;
        },
        None => {},
    }
    Ok(())
}

} // verus!
