//! Calendar dates, held as day numbers.
//!
//! A date is held as the number of its day in the proleptic Gregorian
//! calendar, counted from 1 January of the year 1 as day 1. Differences
//! between dates are then differences between integers. Reading a date from
//! text and writing it as text is left to the `chrono` crate.

use chrono::{Datelike, NaiveDate};
use vstd::prelude::*;

verus! {

/// The day number of 1 January 2000, the day from which creation dates are
/// counted.
pub const EPOCH_DAY: i32 = 730_120;

/// The format in which a record spells its dates: year, month and day with
/// hyphens between them, as in `2024-04-08`.
pub open spec fn date_format() -> Seq<char> {
    "%Y-%m-%d"@
}

/// The day number of the date that `chrono` reads from `text` in the format
/// `format`, or nothing where it reads no date from it.
pub uninterp spec fn day_number_of_text(text: Seq<char>, format: Seq<char>) -> Option<i32>;

/// The text that `chrono` writes in the format `format` for the date whose day
/// number is `day`, or nothing where it has no such date or cannot write it
/// in that format.
pub uninterp spec fn text_of_day_number(day: i32, format: Seq<char>) -> Option<Seq<char>>;

/// The error with which `chrono` refuses a text that it cannot read as a
/// date. Nothing is known of what it holds.
#[verifier::external_type_specification]
#[verifier::external_body]
pub struct ExParseError(chrono::ParseError);

/// Reads a date from `text` in the format `format` and gives its day
/// number.
///
/// Calls `NaiveDate::parse_from_str` of `chrono` and hands back the
/// `num_days_from_ce` of the date it returns, or the error it returns.
/// Nothing is claimed of the day number but that it depends on the two texts
/// alone.
#[verifier::external_body]
pub(crate) fn read_date(text: &str, format: &str) -> (r: Result<i32, chrono::ParseError>)
    ensures
        match r {
            Ok(day) => day_number_of_text(text@, format@) == Some(day),
            Err(_) => day_number_of_text(text@, format@) is None,
        },
{
    match NaiveDate::parse_from_str(text, format) {
        Ok(date) => Ok(date.num_days_from_ce()),
        Err(e) => Err(e),
    }
}

/// Writes the date whose day number is `day` in the format `format`.
///
/// Asks `NaiveDate::from_num_days_from_ce_opt` of `chrono` for the date and
/// writes what `NaiveDate::format` makes of it with `DelayedFormat::write_to`.
/// Nothing is claimed of the result but that it depends on the day number and
/// the format alone.
#[verifier::external_body]
pub(crate) fn write_date(day: i32, format: &str) -> (r: Option<String>)
    ensures
        match r {
            Some(text) => text_of_day_number(day, format@) == Some(text@),
            None => text_of_day_number(day, format@) is None,
        },
{
    let date = NaiveDate::from_num_days_from_ce_opt(day)?;
    let mut text = String::new();
    match date.format(format).write_to(&mut text) {
        Ok(()) => Some(text),
        Err(_) => None,
    }
}

} // verus!
