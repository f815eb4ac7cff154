//! A compact, reversible text code for a small document record: an
//! identifier, a few flags, an optional version and optional dates.
//!
//! The modules, from the ground up: `alphabet`, `numeral` and `radix` write
//! and read numbers in base 62 and in the friendly base 64; `dotted`, `sacsi`
//! and `calendar` turn a version, an identifier and a date into a number and
//! back; `flags` packs six flags into one symbol; `frame` puts the fields of
//! a code together and takes them apart; `record` and `details` encode and
//! decode whole records.

pub mod alphabet;
pub mod calendar;
pub mod details;
pub mod dotted;
pub mod error;
pub mod flags;
pub mod frame;
pub mod numeral;
pub mod radix;
pub mod record;
pub mod sacsi;
pub mod text;

pub use details::{decode, encode, from_vegcode, to_vegcode, VegcodeDetails};
pub use error::VegCodeError;
pub use frame::VegCodeParsed;
pub use record::VegCodeRecord;
