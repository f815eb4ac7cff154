//! The ways in which encoding or decoding can fail.

use vstd::prelude::*;

verus! {

/// Why a value could not be encoded or a code could not be decoded.
#[derive(Clone, Copy, Debug, PartialEq, Eq, Structural)]
pub enum VegCodeError {
    /// The record breaks a rule that ties its fields together, or holds a
    /// date that the code cannot carry.
    InvalidRecord,
    /// The identifier is not a letter followed by dotted decimal groups, or
    /// its number does not fit the identifier field.
    InvalidIdentifier,
    /// The version is not made of dotted decimal groups, or its number does
    /// not fit the version field.
    InvalidVersion,
    /// The text is too short for the fields it announces, or holds a number
    /// that is too large.
    MalformedInput,
    /// A character lies outside the alphabet of the numeral it belongs to.
    InvalidSymbol,
}

} // verus!
