//! The record that a code stands for, and the codec between the two.
//!
//! The identifier and the version are held as the numbers they stand for,
//! the dates as day numbers. In the code every number is a numeral in base
//! 62. The creation date is written as the days since 1 January 2000, the
//! date of the last update as the days since the creation date. A written
//! zero cannot be told from a missing date: a code whose creation date field
//! holds zero decodes to a record without dates, and one whose field for the
//! last update holds zero to a record that was never updated.

use vstd::prelude::*;
use crate::alphabet::{is_digit_of, lemma_digit_symbol};
use crate::calendar::EPOCH_DAY;
use crate::error::VegCodeError;
use crate::flags::{pack_flags, unpack_flags, VegCodeFlags};
use crate::frame::{
    created_width, identifier_width, split_code, vegcode_parsed_to_vegcode,
    vegcode_to_vegcode_parsed, version_width, VegCodeFields, VegCodeParsed,
};
use crate::numeral::{
    is_numeral, lemma_numeral_is_numeral, lemma_numeral_len, lemma_read_numeral,
    lemma_zero_padded_is_numeral, numeral, power, read_numeral_result, zero_pad, zero_padded,
};
use crate::radix::{base10_to_base62, base62_to_base10};
use crate::text::{push_char, string_chars};

verus! {

/// A record in decoded form.
#[derive(Clone, Copy, Debug, PartialEq, Eq)]
pub struct VegCodeRecord {
    /// The revision of the encoding scheme; only `'0'` is defined.
    pub format_version: char,
    /// The author flag of the document.
    pub is_author: bool,
    /// The draft flag: the document is a draft.
    pub is_draft: bool,
    /// The archive flag: the document is archived.
    pub is_archived: bool,
    /// The number that the identifier of the document stands for.
    pub identifier: u64,
    /// The number that the version of the document stands for, if the
    /// document is versioned.
    pub semantic_version: Option<u64>,
    /// The day number of the day the document was created, if known.
    pub created_date: Option<i32>,
    /// The day number of the day the document was last updated, if it was.
    pub last_updated_date: Option<i32>,
}

impl VegCodeRecord {
    /// Whether the record keeps the rule that ties its fields together: only
    /// a record with a version and a creation date has a date of the last
    /// update.
    pub open spec fn is_well_formed(self) -> bool {
        self.last_updated_date is Some ==> self.semantic_version is Some && self.created_date
            is Some
    }

    /// The record with the given fields, or `InvalidRecord` where there is a
    /// date of the last update, but no version or no creation date.
    pub fn new(
        format_version: char,
        is_author: bool,
        is_draft: bool,
        is_archived: bool,
        identifier: u64,
        semantic_version: Option<u64>,
        created_date: Option<i32>,
        last_updated_date: Option<i32>,
    ) -> (r: Result<VegCodeRecord, VegCodeError>)
        ensures
            match r {
                Ok(record) => record.is_well_formed() && record == (VegCodeRecord {
                    format_version,
                    is_author,
                    is_draft,
                    is_archived,
                    identifier,
                    semantic_version,
                    created_date,
                    last_updated_date,
                }),
                Err(e) => e == VegCodeError::InvalidRecord && last_updated_date is Some && (
                semantic_version is None || created_date is None),
            },
    {
        if last_updated_date.is_some() && (semantic_version.is_none() || created_date.is_none()) {
            return Err(VegCodeError::InvalidRecord);
        }
        Ok(
            VegCodeRecord {
                format_version,
                is_author,
                is_draft,
                is_archived,
                identifier,
                semantic_version,
                created_date,
                last_updated_date,
            },
        )
    }

    /// The identifier field of the code: the identifier in base 62.
    pub open spec fn identifier_field(self) -> Seq<char> {
        numeral(self.identifier as nat, 62)
    }

    /// The version field of the code: the version in base 62, or nothing
    /// without a version.
    pub open spec fn version_field(self) -> Seq<char> {
        match self.semantic_version {
            Some(version) => numeral(version as nat, 62),
            None => Seq::empty(),
        }
    }

    /// The flags of the code. Three of them are the record's own. The other
    /// three tell whether there is a version and how long the identifier and
    /// version fields are.
    pub open spec fn flags(self) -> VegCodeFlags {
        VegCodeFlags {
            is_versioned: self.semantic_version is Some,
            version_is_4_chars: self.version_field().len() == 4,
            sacsi_is_5_chars: self.identifier_field().len() == 5,
            is_archived: self.is_archived,
            is_draft: self.is_draft,
            is_author: self.is_author,
        }
    }

    /// The days from 1 January 2000 to the creation date; 0 without one.
    pub open spec fn created_offset(self) -> int {
        match self.created_date {
            Some(created) => created - EPOCH_DAY,
            None => 0,
        }
    }

    /// The days from the creation date to the date of the last update; 0
    /// without the one or the other.
    pub open spec fn updated_offset(self) -> int {
        match (self.created_date, self.last_updated_date) {
            (Some(created), Some(updated)) => updated - created,
            _ => 0,
        }
    }

    /// The creation date field of the code: the days since 1 January 2000 in
    /// base 62, with zero digits in front up to three characters where the
    /// record has a version; nothing without a creation date.
    pub open spec fn created_field(self) -> Seq<char> {
        if self.created_date is None {
            Seq::empty()
        } else if self.semantic_version is Some {
            zero_padded(numeral(self.created_offset() as nat, 62), created_width() as nat)
        } else {
            numeral(self.created_offset() as nat, 62)
        }
    }

    /// The field of the code for the date of the last update: the days since
    /// the creation date in base 62; nothing without such a date.
    pub open spec fn updated_field(self) -> Seq<char> {
        if self.last_updated_date is None {
            Seq::empty()
        } else {
            numeral(self.updated_offset() as nat, 62)
        }
    }

    /// Why the record cannot be encoded, if it cannot.
    ///
    /// - `InvalidRecord`: the record is not well formed.
    /// - `InvalidIdentifier`: the identifier does not take four or five
    ///   characters in base 62.
    /// - `InvalidVersion`: the version does not take three or four
    ///   characters in base 62.
    /// - `InvalidRecord`: the creation date lies before 1 January 2000, or,
    ///   with a version, too far after it for three characters; or the date
    ///   of the last update lies before the creation date.
    pub open spec fn encoding_error(self) -> Option<VegCodeError> {
        if !self.is_well_formed() {
            Some(VegCodeError::InvalidRecord)
        } else if self.identifier_field().len() != 4 && self.identifier_field().len() != 5 {
            Some(VegCodeError::InvalidIdentifier)
        } else if self.semantic_version is Some && self.version_field().len() != 3
            && self.version_field().len() != 4 {
            Some(VegCodeError::InvalidVersion)
        } else if self.created_offset() < 0 {
            Some(VegCodeError::InvalidRecord)
        } else if self.semantic_version is Some && self.created_field().len() > created_width() {
            Some(VegCodeError::InvalidRecord)
        } else if self.updated_offset() < 0 {
            Some(VegCodeError::InvalidRecord)
        } else {
            None
        }
    }

    /// Whether the record can be encoded, said of its numbers: it is well
    /// formed; its identifier is at least 62^3 and below 62^5; its version, if
    /// any, is at least 62^2 and below 62^4; its creation date is not before
    /// 1 January 2000 and, beside a version, less than 62^3 days after it;
    /// and its date of the last update is not before its creation date.
    pub open spec fn is_encodable(self) -> bool {
        &&& self.is_well_formed()
        &&& 238_328 <= self.identifier < 916_132_832
        &&& self.semantic_version matches Some(version) ==> 3_844 <= version < 14_776_336
        &&& self.created_date matches Some(created) ==> EPOCH_DAY <= created
        &&& self.semantic_version is Some && self.created_date is Some ==> self.created_offset()
            < 238_328
        &&& self.last_updated_date matches Some(updated) ==> self.created_date.unwrap() <= updated
    }

    /// The record has a code exactly when it can be encoded.
    pub proof fn lemma_encodable(self)
        ensures
            self.encoding_error() is None <==> self.is_encodable(),
            self.encoding() is Ok <==> self.is_encodable(),
    {
        assert(power(62, 2) == 3_844 && power(62, 3) == 238_328 && power(62, 4) == 14_776_336
            && power(62, 5) == 916_132_832) by {
            reveal_with_fuel(power, 6);
        }
        lemma_numeral_len(self.identifier as nat, 62, 3);
        lemma_numeral_len(self.identifier as nat, 62, 5);
        if self.semantic_version is Some {
            let version = self.semantic_version.unwrap() as nat;
            lemma_numeral_len(version, 62, 2);
            lemma_numeral_len(version, 62, 4);
        }
        if self.created_offset() >= 0 {
            lemma_numeral_len(self.created_offset() as nat, 62, 3);
        }
    }

    /// The fields of the code of the record.
    pub open spec fn fields(self) -> VegCodeFields {
        VegCodeFields {
            vegcode_version: seq![self.format_version],
            flags: seq![self.flags().symbol()],
            sacsi_id: self.identifier_field(),
            v2_version: self.version_field(),
            created_date: self.created_field(),
            last_updated_date: self.updated_field(),
        }
    }

    /// What encoding the record gives: its code, or the reason why it has
    /// none.
    pub open spec fn encoding(self) -> Result<Seq<char>, VegCodeError> {
        match self.encoding_error() {
            Some(e) => Err(e),
            None => Ok(self.fields().joined()),
        }
    }
}

/// The dates that the two written day counts stand for: the creation date
/// `created` days after 1 January 2000, and the date of the last update
/// `updated` days after the creation date. A count of zero stands for no
/// date, and without a creation date there is no date of the last update.
/// `MalformedInput` where a date would lie beyond the last day number.
pub open spec fn dates_of_offsets(created: u64, updated: u64) -> Result<
    (Option<i32>, Option<i32>),
    VegCodeError,
> {
    if created == 0 {
        Ok((None, None))
    } else if EPOCH_DAY + created > i32::MAX {
        Err(VegCodeError::MalformedInput)
    } else if updated == 0 {
        Ok((Some((EPOCH_DAY + created) as i32), None))
    } else if EPOCH_DAY + created + updated > i32::MAX {
        Err(VegCodeError::MalformedInput)
    } else {
        Ok((Some((EPOCH_DAY + created) as i32), Some((EPOCH_DAY + created + updated) as i32)))
    }
}

impl VegCodeFields {
    /// What decoding the fields gives: a record, or
    ///
    /// - `MalformedInput` where the format version or the flags are not one
    ///   character each,
    /// - `InvalidSymbol` where the flags, the identifier, the version or a
    ///   date holds a character outside its alphabet,
    /// - `MalformedInput` where a date would lie beyond the last day number.
    ///
    /// Without the flag for a version, the version field and the field for
    /// the date of the last update are not looked at.
    pub open spec fn record(self) -> Result<VegCodeRecord, VegCodeError> {
        let flags = VegCodeFlags::of_symbol(self.flags[0]);
        let versioned = flags is Some && flags.unwrap().is_versioned;
        let identifier = read_numeral_result(self.sacsi_id, 62, VegCodeError::InvalidSymbol);
        let version = read_numeral_result(self.v2_version, 62, VegCodeError::InvalidSymbol);
        let created = read_numeral_result(self.created_date, 62, VegCodeError::InvalidSymbol);
        let updated = if versioned {
            read_numeral_result(self.last_updated_date, 62, VegCodeError::InvalidSymbol)
        } else {
            Ok(0)
        };
        if self.vegcode_version.len() != 1 || self.flags.len() != 1 {
            Err(VegCodeError::MalformedInput)
        } else if flags is None {
            Err(VegCodeError::InvalidSymbol)
        } else if identifier is Err {
            Err(identifier->Err_0)
        } else if versioned && version is Err {
            Err(version->Err_0)
        } else if created is Err {
            Err(created->Err_0)
        } else if updated is Err {
            Err(updated->Err_0)
        } else {
            match dates_of_offsets(created->Ok_0, updated->Ok_0) {
                Err(e) => Err(e),
                Ok((created_date, last_updated_date)) => Ok(
                    VegCodeRecord {
                        format_version: self.vegcode_version[0],
                        is_author: flags.unwrap().is_author,
                        is_draft: flags.unwrap().is_draft,
                        is_archived: flags.unwrap().is_archived,
                        identifier: identifier->Ok_0,
                        semantic_version: if versioned {
                            Some(version->Ok_0)
                        } else {
                            None
                        },
                        created_date,
                        last_updated_date,
                    },
                ),
            }
        }
    }
}

/// What decoding `code` gives: a record, or the reason why it stands for
/// none, from taking the code apart or from decoding its fields.
pub open spec fn decoding(code: Seq<char>) -> Result<VegCodeRecord, VegCodeError> {
    match split_code(code) {
        Ok(fields) => fields.record(),
        Err(e) => Err(e),
    }
}

/// Encodes the fields of a record.
pub fn record_to_vegcode_parsed(record: &VegCodeRecord) -> (r: Result<VegCodeParsed, VegCodeError>)
    ensures
        match record.encoding_error() {
            Some(e) => r == Err::<VegCodeParsed, VegCodeError>(e),
            None => r is Ok && r.unwrap()@ == record.fields(),
        },
{
    let flag_versioned_file = record.semantic_version.is_some();
    if record.last_updated_date.is_some() && (!flag_versioned_file
        || record.created_date.is_none()) {
        return Err(VegCodeError::InvalidRecord);
    }
    let sacsi_base62 = base10_to_base62(record.identifier);
    let sacsi_length = sacsi_base62.as_str().unicode_len();
    if sacsi_length != 4 && sacsi_length != 5 {
        return Err(VegCodeError::InvalidIdentifier);
    }
    let flag_sacsi_5 = sacsi_length == 5;
    let v2_base62 = match record.semantic_version {
        Some(version) => base10_to_base62(version),
        None => String::new(),
    };
    let v2_length = v2_base62.as_str().unicode_len();
    if flag_versioned_file && v2_length != 3 && v2_length != 4 {
        return Err(VegCodeError::InvalidVersion);
    }
    let flag_v2_4 = v2_length == 4;
    let created_date_base62 = match record.created_date {
        Some(created) => {
            if created < EPOCH_DAY {
                return Err(VegCodeError::InvalidRecord);
            }
            let days = base10_to_base62((created - EPOCH_DAY) as u64);
            if flag_versioned_file {
                zero_pad(days.as_str(), 3)
            } else {
                days
            }
        },
        None => String::new(),
    };
    if flag_versioned_file && created_date_base62.as_str().unicode_len() > 3 {
        return Err(VegCodeError::InvalidRecord);
    }
    let last_updated_date_base62 = match (record.created_date, record.last_updated_date) {
        (Some(created), Some(updated)) => {
            if updated < created {
                return Err(VegCodeError::InvalidRecord);
            }
            base10_to_base62((updated - created) as u64)
        },
        _ => String::new(),
    };
    let flags = VegCodeFlags {
        is_versioned: flag_versioned_file,
        version_is_4_chars: flag_v2_4,
        sacsi_is_5_chars: flag_sacsi_5,
        is_archived: record.is_archived,
        is_draft: record.is_draft,
        is_author: record.is_author,
    };
    let mut vegcode_version = String::new();
    push_char(&mut vegcode_version, record.format_version);
    Ok(
        VegCodeParsed {
            vegcode_version,
            flags: pack_flags(flags),
            sacsi_id: sacsi_base62,
            v2_version: v2_base62,
            created_date: created_date_base62,
            last_updated_date: last_updated_date_base62,
        },
    )
}

/// Encodes a record.
pub fn encode_record(record: &VegCodeRecord) -> (r: Result<String, VegCodeError>)
    ensures
        match record.encoding() {
            Ok(code) => r is Ok && r.unwrap()@ == code,
            Err(e) => r == Err::<String, VegCodeError>(e),
        },
{
    match record_to_vegcode_parsed(record) {
        Ok(parsed) => Ok(vegcode_parsed_to_vegcode(parsed)),
        Err(e) => Err(e),
    }
}

/// The dates that two written day counts stand for.
pub fn offsets_to_dates(created: u64, updated: u64) -> (r: Result<
    (Option<i32>, Option<i32>),
    VegCodeError,
>)
    ensures
        r == dates_of_offsets(created, updated),
{
    if created == 0 {
        return Ok((None, None));
    }
    if created > (i32::MAX - EPOCH_DAY) as u64 {
        return Err(VegCodeError::MalformedInput);
    }
    let created_day: i32 = EPOCH_DAY + created as i32;
    if updated == 0 {
        return Ok((Some(created_day), None));
    }
    if updated > (i32::MAX - created_day) as u64 {
        return Err(VegCodeError::MalformedInput);
    }
    Ok((Some(created_day), Some(created_day + updated as i32)))
}

/// Decodes the fields of a code.
pub fn vegcode_parsed_to_record(parsed: &VegCodeParsed) -> (r: Result<VegCodeRecord, VegCodeError>)
    ensures
        r == parsed@.record(),
        r matches Ok(record) ==> record.is_well_formed(),
{
    let version_chars = string_chars(parsed.vegcode_version.as_str());
    let flag_chars = string_chars(parsed.flags.as_str());
    if version_chars.len() != 1 || flag_chars.len() != 1 {
        return Err(VegCodeError::MalformedInput);
    }
    let flags = match unpack_flags(flag_chars[0]) {
        Ok(flags) => flags,
        Err(e) => {
            return Err(e);
        },
    };
    let identifier = match base62_to_base10(parsed.sacsi_id.clone()) {
        Ok(n) => n,
        Err(e) => {
            return Err(e);
        },
    };
    let semantic_version = if flags.is_versioned {
        match base62_to_base10(parsed.v2_version.clone()) {
            Ok(n) => Some(n),
            Err(e) => {
                return Err(e);
            },
        }
    } else {
        None
    };
    let created = match base62_to_base10(parsed.created_date.clone()) {
        Ok(n) => n,
        Err(e) => {
            return Err(e);
        },
    };
    let last_updated_date = if flags.is_versioned {
        match base62_to_base10(parsed.last_updated_date.clone()) {
            Ok(n) => n,
            Err(e) => {
                return Err(e);
            },
        }
    } else {
        0
    };
    match offsets_to_dates(created, last_updated_date) {
        Ok((created_date, last_updated_date)) => Ok(
            VegCodeRecord {
                format_version: version_chars[0],
                is_author: flags.is_author,
                is_draft: flags.is_draft,
                is_archived: flags.is_archived,
                identifier,
                semantic_version,
                created_date,
                last_updated_date,
            },
        ),
        Err(e) => Err(e),
    }
}

/// Decodes a code.
pub fn decode_record(vegcode: &str) -> (r: Result<VegCodeRecord, VegCodeError>)
    ensures
        r == decoding(vegcode@),
        r matches Ok(record) ==> record.is_well_formed(),
{
    match vegcode_to_vegcode_parsed(vegcode) {
        Ok(parsed) => vegcode_parsed_to_record(&parsed),
        Err(e) => Err(e),
    }
}

/// After the format version, the code of a record holds symbols of the
/// friendly base 64 only.
pub proof fn lemma_code_symbols(record: VegCodeRecord)
    requires
        record.encoding_error() is None,
    ensures
        record.fields().joined().len() >= 6,
        is_numeral(record.fields().joined().skip(1), 64),
{
    let fields = record.fields();
    let code = fields.joined();
    let tail = code.skip(1);
    lemma_digit_symbol(record.flags().number() as int);
    lemma_numeral_is_numeral(record.identifier as nat, 62);
    if record.semantic_version is Some {
        lemma_numeral_is_numeral(record.semantic_version.unwrap() as nat, 62);
    }
    lemma_numeral_is_numeral(record.created_offset() as nat, 62);
    lemma_zero_padded_is_numeral(
        numeral(record.created_offset() as nat, 62),
        62,
        created_width() as nat,
    );
    lemma_numeral_is_numeral(record.updated_offset() as nat, 62);
    assert(tail == fields.flags + fields.sacsi_id + fields.v2_version + fields.created_date
        + fields.last_updated_date);
    assert forall|i: int| 0 <= i < tail.len() implies is_digit_of(#[trigger] tail[i], 64) by {
        let a = fields.flags.len();
        let b = a + fields.sacsi_id.len();
        let c = b + fields.v2_version.len();
        let d = c + fields.created_date.len();
        if i < a {
            assert(tail[i] == fields.flags[i]);
        } else if i < b {
            assert(tail[i] == fields.sacsi_id[i - a]);
            assert(is_digit_of(fields.sacsi_id[i - a], 62));
        } else if i < c {
            assert(tail[i] == fields.v2_version[i - b]);
            assert(is_digit_of(fields.v2_version[i - b], 62));
        } else if i < d {
            assert(tail[i] == fields.created_date[i - c]);
            assert(is_digit_of(fields.created_date[i - c], 62));
        } else {
            assert(tail[i] == fields.last_updated_date[i - d]);
            assert(is_digit_of(fields.last_updated_date[i - d], 62));
        }
    }
}

/// Taking apart the code of a record gives the fields it was put together
/// from.
pub proof fn lemma_split_joined(record: VegCodeRecord)
    requires
        record.encoding_error() is None,
    ensures
        split_code(record.fields().joined()) == Ok::<VegCodeFields, VegCodeError>(record.fields()),
{
    let fields = record.fields();
    let code = fields.joined();
    let flags = record.flags();
    flags.lemma_pack_unpack();
    assert(code[0] == record.format_version);
    assert(code[1] == flags.symbol());
    let version_start = 2 + identifier_width(flags);
    let created_start = version_start + version_width(flags);
    assert(version_start == 2 + fields.sacsi_id.len());
    assert(created_start == version_start + fields.v2_version.len());
    let updated_start = created_start + fields.created_date.len();
    assert(code.len() == updated_start + fields.last_updated_date.len());
    assert(code.subrange(0, 1) == fields.vegcode_version);
    assert(code.subrange(1, 2) == fields.flags);
    assert(code.subrange(2, version_start) == fields.sacsi_id);
    assert(code.subrange(version_start, created_start) == fields.v2_version);
    assert(code.subrange(created_start, updated_start) == fields.created_date);
    assert(code.subrange(updated_start, code.len() as int) == fields.last_updated_date);
}

/// Decoding the code of a record gives the record back.
///
/// This holds of every record that can be encoded, but for two kinds: a
/// record created on 1 January 2000, and a record last updated on the day
/// it was created. Their day counts are zero, and a zero is read as a
/// missing date.
pub proof fn lemma_decode_encode(record: VegCodeRecord)
    requires
        record.encoding_error() is None,
        record.created_date != Some(EPOCH_DAY),
        record.last_updated_date is Some ==> record.last_updated_date != record.created_date,
    ensures
        record.encoding() is Ok,
        decoding(record.encoding()->Ok_0) == Ok::<VegCodeRecord, VegCodeError>(record),
{
    let fields = record.fields();
    lemma_split_joined(record);
    record.flags().lemma_pack_unpack();
    lemma_read_numeral(record.identifier, 62, 0, VegCodeError::InvalidSymbol);
    if record.semantic_version is Some {
        lemma_read_numeral(
            record.semantic_version->Some_0,
            62,
            0,
            VegCodeError::InvalidSymbol,
        );
    }
    lemma_read_numeral(
        record.created_offset() as u64,
        62,
        created_width() as nat,
        VegCodeError::InvalidSymbol,
    );
    lemma_read_numeral(
        record.updated_offset() as u64,
        62,
        0,
        VegCodeError::InvalidSymbol,
    );
    assert(numeral(0, 62) == Seq::<char>::empty());
    assert(fields.record() == Ok::<VegCodeRecord, VegCodeError>(record));
}

} // verus!
