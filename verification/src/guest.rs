//! The records that the registry stores and the errors it reports.

use vstd::prelude::*;

verus! {

/// How a guest pays.
#[derive(Clone, Copy, PartialEq, Eq, Structural, Debug, Hash)]
pub enum PaymentMethod {
    Credit,
    Cash,
    Pix,
}

impl Default for PaymentMethod {
    /// Credit is the method of a guest who named none.
    fn default() -> (method: Self)
        ensures
            method == PaymentMethod::Credit,
    {
        PaymentMethod::Credit
    }
}

/// One occupant and the room they hold.
#[derive(Clone, PartialEq, Eq, Debug)]
pub struct Guest {
    pub id: u32,
    pub name: String,
    pub email: String,
    pub payment: PaymentMethod,
    /// Milliseconds since the Unix epoch at which the record was created.
    pub checkin: u64,
    pub room: u32,
}

impl Default for Guest {
    /// The all-zero record with empty texts. It is a placeholder: its id is
    /// not an identifier that the registry would accept.
    fn default() -> (guest: Self)
        ensures
            guest.id == 0,
            guest.name@ == Seq::<char>::empty(),
            guest.email@ == Seq::<char>::empty(),
            guest.payment == PaymentMethod::Credit,
            guest.checkin == 0,
            guest.room == 0,
    {
        Guest {
            id: 0,
            name: String::new(),
            email: String::new(),
            payment: PaymentMethod::Credit,
            checkin: 0,
            room: 0,
        }
    }
}

/// Why an operation of the registry was refused.
#[derive(Clone, Copy, PartialEq, Eq, Structural, Debug, Hash)]
pub enum HotelError {
    /// The requested room is not free.
    RoomUnavailable,
    /// The identifier does not have nine digits.
    InvalidIdentifier,
    /// Another guest is already stored under the identifier.
    DuplicateIdentifier,
    /// The name is blank once trimmed.
    EmptyName,
    /// The email is blank once trimmed.
    EmptyEmail,
    /// No guest is stored under the identifier.
    GuestNotFound,
}

/// The wording of each error.
pub open spec fn message_text(error: HotelError) -> Seq<char> {
    match error {
        HotelError::RoomUnavailable => "Room not available"@,
        HotelError::InvalidIdentifier => "Invalid RG"@,
        HotelError::DuplicateIdentifier => "Guest already exists"@,
        HotelError::EmptyName => "Empty name"@,
        HotelError::EmptyEmail => "Empty email!"@,
        HotelError::GuestNotFound => "Guest not found"@,
    }
}

impl HotelError {
    /// The error in words, for a caller to show.
    pub fn message(&self) -> (text: String)
        ensures
            text@ == message_text(*self),
    {
        match self {
            HotelError::RoomUnavailable => "Room not available".to_owned(),
            HotelError::InvalidIdentifier => "Invalid RG".to_owned(),
            HotelError::DuplicateIdentifier => "Guest already exists".to_owned(),
            HotelError::EmptyName => "Empty name".to_owned(),
            HotelError::EmptyEmail => "Empty email!".to_owned(),
            HotelError::GuestNotFound => "Guest not found".to_owned(),
        }
    }
}

/// The smallest identifier that is accepted.
pub const MIN_ID: u32 = 100_000_000;

/// The largest identifier that is accepted.
pub const MAX_ID: u32 = 999_999_999;

/// An identifier is valid when it has exactly nine decimal digits.
pub open spec fn valid_id(id: u32) -> bool {
    99_999_999 < id <= 999_999_999
}

/// Tells whether `id` has exactly nine decimal digits.
pub fn is_valid_id(id: u32) -> (ok: bool)
    ensures
        ok == valid_id(id),
{
    MIN_ID <= id && id <= MAX_ID
}

} // verus!
