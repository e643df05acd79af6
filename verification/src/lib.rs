//! A hotel guest registry: guests keyed by a nine-digit identifier, each
//! holding one room, beside the pool of rooms that nobody holds.
//!
//! Every operation of [`HotelInk`] keeps the registry consistent: a room is
//! either free or held by exactly one guest, never both and never neither.

pub mod guest;
pub mod laws;
pub mod pool;
pub mod registry;
pub mod text;
pub mod timestamp;

pub use guest::{Guest, HotelError, PaymentMethod};
pub use registry::{HotelInk, HotelState};
