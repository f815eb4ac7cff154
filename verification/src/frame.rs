//! The fields of a code, and how a code is put together from them and taken
//! apart into them.
//!
//! A code is the format version (one character), the flags (one character),
//! the identifier (four or five characters), the version (three or four
//! characters, if the record has one), the creation date and the date of the
//! last update. The flags say how long the identifier and the version
//! are. With a version, the creation date takes three characters and the
//! date of the last update the rest; without one, the creation date takes
//! all that is left.

use vstd::prelude::*;
use crate::error::VegCodeError;
use crate::flags::{unpack_flags, VegCodeFlags};
use crate::text::{string_chars, string_from_chars};

verus! {

/// The fields of a code, each still encoded. These are in the order in which
/// they appear in the code.
#[derive(Clone, Debug, PartialEq, Eq)]
pub struct VegCodeParsed {
    /// The format version, one character.
    pub vegcode_version: String,
    /// The flags, one symbol of the friendly base 64.
    pub flags: String,
    /// The identifier in base 62.
    pub sacsi_id: String,
    /// The version in base 62; empty without a version.
    pub v2_version: String,
    /// The days from 1 January 2000 to the creation date in base 62; empty
    /// without a creation date.
    pub created_date: String,
    /// The days from the creation date to the date of the last update in
    /// base 62; empty without such a date.
    pub last_updated_date: String,
}

/// The fields of a code as sequences of characters.
pub struct VegCodeFields {
    pub vegcode_version: Seq<char>,
    pub flags: Seq<char>,
    pub sacsi_id: Seq<char>,
    pub v2_version: Seq<char>,
    pub created_date: Seq<char>,
    pub last_updated_date: Seq<char>,
}

impl View for VegCodeParsed {
    type V = VegCodeFields;

    open spec fn view(&self) -> VegCodeFields {
        VegCodeFields {
            vegcode_version: self.vegcode_version@,
            flags: self.flags@,
            sacsi_id: self.sacsi_id@,
            v2_version: self.v2_version@,
            created_date: self.created_date@,
            last_updated_date: self.last_updated_date@,
        }
    }
}

impl VegCodeFields {
    /// The code that the fields make: one after the other.
    pub open spec fn joined(self) -> Seq<char> {
        self.vegcode_version + self.flags + self.sacsi_id + self.v2_version + self.created_date
            + self.last_updated_date
    }
}

/// The length of the identifier field that the flags announce.
pub open spec fn identifier_width(flags: VegCodeFlags) -> int {
    if flags.sacsi_is_5_chars {
        5
    } else {
        4
    }
}

/// The length of the version field that the flags announce: none without a
/// version, whatever the flags say of its length.
pub open spec fn version_width(flags: VegCodeFlags) -> int {
    if !flags.is_versioned {
        0
    } else if flags.version_is_4_chars {
        4
    } else {
        3
    }
}

/// The length of the creation date field of a code with a version.
pub open spec fn created_width() -> int {
    3
}

/// What taking `code` apart gives: its fields, or `MalformedInput` where it
/// is too short for the fields its flags announce, or `InvalidSymbol` where
/// its second character holds no flags.
pub open spec fn split_code(code: Seq<char>) -> Result<VegCodeFields, VegCodeError> {
    if code.len() < 2 {
        Err(VegCodeError::MalformedInput)
    } else {
        match VegCodeFlags::of_symbol(code[1]) {
            None => Err(VegCodeError::InvalidSymbol),
            Some(flags) => {
                let version_start = 2 + identifier_width(flags);
                let created_start = version_start + version_width(flags);
                let updated_start = if !flags.is_versioned || code.len() == created_start {
                    code.len() as int
                } else {
                    created_start + created_width()
                };
                if code.len() < created_start || code.len() < updated_start {
                    Err(VegCodeError::MalformedInput)
                } else {
                    Ok(
                        VegCodeFields {
                            vegcode_version: code.subrange(0, 1),
                            flags: code.subrange(1, 2),
                            sacsi_id: code.subrange(2, version_start),
                            v2_version: code.subrange(version_start, created_start),
                            created_date: code.subrange(created_start, updated_start),
                            last_updated_date: code.subrange(updated_start, code.len() as int),
                        },
                    )
                }
            },
        }
    }
}

/// Puts a code together from its fields.
pub fn vegcode_parsed_to_vegcode(parsed: VegCodeParsed) -> (vegcode: String)
    ensures
        vegcode@ == parsed@.joined(),
{
    let mut vegcode = String::new();
    vegcode.append(parsed.vegcode_version.as_str());
    vegcode.append(parsed.flags.as_str());
    vegcode.append(parsed.sacsi_id.as_str());
    vegcode.append(parsed.v2_version.as_str());
    vegcode.append(parsed.created_date.as_str());
    vegcode.append(parsed.last_updated_date.as_str());
    vegcode
}

/// Takes a code apart into its fields.
pub fn vegcode_to_vegcode_parsed(vegcode: &str) -> (r: Result<VegCodeParsed, VegCodeError>)
    ensures
        match split_code(vegcode@) {
            Ok(fields) => r is Ok && r.unwrap()@ == fields,
            Err(e) => r == Err::<VegCodeParsed, VegCodeError>(e),
        },
{
    let chars = string_chars(vegcode);
    let len = chars.len();
    if len < 2 {
        return Err(VegCodeError::MalformedInput);
    }
    let flags = match unpack_flags(chars[1]) {
        Ok(flags) => flags,
        Err(e) => {
            return Err(e);
        },
    };
    let sacsi_length: usize = if flags.sacsi_is_5_chars {
        5
    } else {
        4
    };
    let v2_length: usize = if !flags.is_versioned {
        0
    } else if flags.version_is_4_chars {
        4
    } else {
        3
    };
    let version_start: usize = 2 + sacsi_length;
    let created_start: usize = version_start + v2_length;
    if len < created_start {
        return Err(VegCodeError::MalformedInput);
    }
    let updated_start: usize = if !flags.is_versioned || len == created_start {
        len
    } else {
        created_start + 3
    };
    if len < updated_start {
        return Err(VegCodeError::MalformedInput);
    }
    Ok(
        VegCodeParsed {
            vegcode_version: string_from_chars(&chars, 0, 1),
            flags: string_from_chars(&chars, 1, 2),
            sacsi_id: string_from_chars(&chars, 2, version_start),
            v2_version: string_from_chars(&chars, version_start, created_start),
            created_date: string_from_chars(&chars, created_start, updated_start),
            last_updated_date: string_from_chars(&chars, updated_start, len),
        },
    )
}

} // verus!
