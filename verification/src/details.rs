//! Records as their users write them, with the identifier, the version and
//! the dates as text, and the codec between such a record and its code.

use vstd::prelude::*;
use crate::calendar::{
    date_format, day_number_of_text, read_date, text_of_day_number, write_date, EPOCH_DAY,
};
use crate::dotted::{
    base10_to_period_separated_string, convert_period_separated_string_to_base10, dotted_number,
    dotted_text, is_canonical_dotted, lemma_dotted_text_of_value,
};
use crate::error::VegCodeError;
use crate::flags::VegCodeFlags;
use crate::record::{decode_record, decoding, encode_record, lemma_decode_encode, VegCodeRecord};
use crate::sacsi::{
    base10_to_sacsi_id, is_canonical_sacsi_id, lemma_sacsi_text_of_value, sacsi_id_to_base10,
    sacsi_number, sacsi_text,
};
use crate::text::{push_char, string_chars};

verus! {

/// A record with its identifier, its version and its dates as text. An empty
/// version stands for a document without versions, an empty date for a date
/// that is not known.
#[derive(Clone, Debug, PartialEq, Eq)]
pub struct VegcodeDetails {
    /// The revision of the encoding scheme, one character; only `0` is
    /// defined.
    pub vegcode_version: String,
    /// The author flag of the document.
    pub flag_author: bool,
    /// The draft flag: the document is a draft.
    pub flag_draft: bool,
    /// The archive flag: the document is archived.
    pub flag_archive: bool,
    /// The identifier of the document, such as `J31.01.02`.
    pub sacsi_id: String,
    /// The version of the document, such as `04.03.00`.
    pub v2_version: String,
    /// The day the document was created, such as `2024-04-08`.
    pub created_date: String,
    /// The day the document was last updated.
    pub last_updated_date: String,
}

/// A record with its texts as sequences of characters.
pub struct VegcodeDetailsView {
    pub vegcode_version: Seq<char>,
    pub flag_author: bool,
    pub flag_draft: bool,
    pub flag_archive: bool,
    pub sacsi_id: Seq<char>,
    pub v2_version: Seq<char>,
    pub created_date: Seq<char>,
    pub last_updated_date: Seq<char>,
}

impl View for VegcodeDetails {
    type V = VegcodeDetailsView;

    open spec fn view(&self) -> VegcodeDetailsView {
        VegcodeDetailsView {
            vegcode_version: self.vegcode_version@,
            flag_author: self.flag_author,
            flag_draft: self.flag_draft,
            flag_archive: self.flag_archive,
            sacsi_id: self.sacsi_id@,
            v2_version: self.v2_version@,
            created_date: self.created_date@,
            last_updated_date: self.last_updated_date@,
        }
    }
}

/// The day number of the date that `text` spells, nothing for the empty
/// text.
pub open spec fn day_of_date_text(text: Seq<char>) -> Option<i32> {
    if text.len() == 0 {
        None
    } else {
        day_number_of_text(text, date_format())
    }
}

/// The text of the date whose day number is `day`, the empty text for no
/// date.
pub open spec fn date_text_of_day(day: Option<i32>) -> Option<Seq<char>> {
    match day {
        Some(day) => text_of_day_number(day, date_format()),
        None => Some(Seq::empty()),
    }
}

/// Whether `text` spells a date the way it is written: it is read as a date,
/// and that date is written as `text`.
pub open spec fn is_canonical_date(text: Seq<char>) -> bool {
    day_number_of_text(text, date_format()) matches Some(day) && text_of_day_number(
        day,
        date_format(),
    ) == Some(text)
}

impl VegcodeDetailsView {
    /// Whether the record keeps the rules that tie its fields together: the
    /// format version is one character, and only a record with a version and
    /// a creation date has a date of the last update.
    pub open spec fn is_well_formed(self) -> bool {
        &&& self.vegcode_version.len() == 1
        &&& self.last_updated_date.len() > 0 ==> self.v2_version.len() > 0
            && self.created_date.len() > 0
    }

    /// Whether the texts of the record are in the form in which they are
    /// written: the identifier with a capital letter and at most three groups
    /// of two digits, the version in groups of two digits, neither with `00`
    /// for its first group, and the dates as they are written.
    pub open spec fn is_canonical(self) -> bool {
        &&& is_canonical_sacsi_id(self.sacsi_id)
        &&& self.v2_version.len() > 0 ==> is_canonical_dotted(self.v2_version)
        &&& self.created_date.len() > 0 ==> is_canonical_date(self.created_date)
        &&& self.last_updated_date.len() > 0 ==> is_canonical_date(self.last_updated_date)
    }

    /// Why the texts of the record cannot be read, if they cannot.
    ///
    /// - `InvalidRecord`: the record is not well formed.
    /// - `InvalidIdentifier`: the identifier cannot be read.
    /// - `InvalidVersion`: there is a version and it cannot be read.
    /// - `InvalidRecord`: there is a date and it cannot be read.
    pub open spec fn reading_error(self) -> Option<VegCodeError> {
        if !self.is_well_formed() {
            Some(VegCodeError::InvalidRecord)
        } else if sacsi_number(self.sacsi_id) is None {
            Some(VegCodeError::InvalidIdentifier)
        } else if self.v2_version.len() > 0 && dotted_number(self.v2_version) is None {
            Some(VegCodeError::InvalidVersion)
        } else if self.created_date.len() > 0 && day_of_date_text(self.created_date) is None {
            Some(VegCodeError::InvalidRecord)
        } else if self.last_updated_date.len() > 0 && day_of_date_text(self.last_updated_date)
            is None {
            Some(VegCodeError::InvalidRecord)
        } else {
            None
        }
    }

    /// What reading the texts of the record gives: the record in decoded
    /// form, or the reason why they cannot be read.
    pub open spec fn record(self) -> Result<VegCodeRecord, VegCodeError> {
        match self.reading_error() {
            Some(e) => Err(e),
            None => Ok(
                VegCodeRecord {
                    format_version: self.vegcode_version[0],
                    is_author: self.flag_author,
                    is_draft: self.flag_draft,
                    is_archived: self.flag_archive,
                    identifier: sacsi_number(self.sacsi_id).unwrap(),
                    semantic_version: if self.v2_version.len() == 0 {
                        None
                    } else {
                        dotted_number(self.v2_version)
                    },
                    created_date: day_of_date_text(self.created_date),
                    last_updated_date: day_of_date_text(self.last_updated_date),
                },
            ),
        }
    }

    /// What encoding the record gives: its code, or the reason why it has
    /// none, from reading its texts or from encoding what was read.
    pub open spec fn encoding(self) -> Result<Seq<char>, VegCodeError> {
        match self.record() {
            Ok(record) => record.encoding(),
            Err(e) => Err(e),
        }
    }
}

impl VegCodeRecord {
    /// Why the record cannot be written as text, if it cannot.
    ///
    /// - `InvalidIdentifier`: the identifier stands for no letter.
    /// - `MalformedInput`: a date cannot be written.
    pub open spec fn writing_error(self) -> Option<VegCodeError> {
        if sacsi_text(self.identifier as nat) is None {
            Some(VegCodeError::InvalidIdentifier)
        } else if date_text_of_day(self.created_date) is None {
            Some(VegCodeError::MalformedInput)
        } else if date_text_of_day(self.last_updated_date) is None {
            Some(VegCodeError::MalformedInput)
        } else {
            None
        }
    }

    /// What writing the record as text gives: the record with its texts, or
    /// the reason why it cannot be written.
    pub open spec fn details(self) -> Result<VegcodeDetailsView, VegCodeError> {
        match self.writing_error() {
            Some(e) => Err(e),
            None => Ok(
                VegcodeDetailsView {
                    vegcode_version: seq![self.format_version],
                    flag_author: self.is_author,
                    flag_draft: self.is_draft,
                    flag_archive: self.is_archived,
                    sacsi_id: sacsi_text(self.identifier as nat).unwrap(),
                    v2_version: match self.semantic_version {
                        Some(version) => dotted_text(version as nat),
                        None => Seq::empty(),
                    },
                    created_date: date_text_of_day(self.created_date).unwrap(),
                    last_updated_date: date_text_of_day(self.last_updated_date).unwrap(),
                },
            ),
        }
    }
}

/// What decoding `code` gives: a record with its texts, or the reason why
/// it stands for none, from decoding the code or from writing what was
/// decoded.
pub open spec fn decoding_details(code: Seq<char>) -> Result<VegcodeDetailsView, VegCodeError> {
    match decoding(code) {
        Ok(record) => record.details(),
        Err(e) => Err(e),
    }
}

/// The record of format version `0` with the given flags and texts.
pub open spec fn details_of(
    flag_author: bool,
    flag_draft: bool,
    flag_archive: bool,
    sacsi_id: Seq<char>,
    v2_version: Seq<char>,
    created_date: Seq<char>,
    last_updated_date: Seq<char>,
) -> VegcodeDetailsView {
    VegcodeDetailsView {
        vegcode_version: seq!['0'],
        flag_author,
        flag_draft,
        flag_archive,
        sacsi_id,
        v2_version,
        created_date,
        last_updated_date,
    }
}

impl VegcodeDetails {
    /// The record with the given fields, or `InvalidRecord` where the format
    /// version is not one character, or where there is a date of the last
    /// update, but no version or no creation date.
    pub fn new(
        vegcode_version: String,
        flag_author: bool,
        flag_draft: bool,
        flag_archive: bool,
        sacsi_id: String,
        v2_version: String,
        created_date: String,
        last_updated_date: String,
    ) -> (r: Result<VegcodeDetails, VegCodeError>)
        ensures
            match r {
                Ok(details) => details@.is_well_formed() && details@ == (VegcodeDetailsView {
                    vegcode_version: vegcode_version@,
                    flag_author,
                    flag_draft,
                    flag_archive,
                    sacsi_id: sacsi_id@,
                    v2_version: v2_version@,
                    created_date: created_date@,
                    last_updated_date: last_updated_date@,
                }),
                Err(e) => e == VegCodeError::InvalidRecord && (vegcode_version@.len() != 1 || (
                last_updated_date@.len() > 0 && (v2_version@.len() == 0 || created_date@.len()
                    == 0))),
            },
    {
        let flag_versioned_file = v2_version.as_str().unicode_len() != 0;
        let has_created_date = created_date.as_str().unicode_len() > 0;
        let has_last_updated_date = last_updated_date.as_str().unicode_len() > 0;
        if vegcode_version.as_str().unicode_len() != 1 {
            return Err(VegCodeError::InvalidRecord);
        }
        if has_last_updated_date && (!flag_versioned_file || !has_created_date) {
            return Err(VegCodeError::InvalidRecord);
        }
        Ok(
            VegcodeDetails {
                vegcode_version,
                flag_author,
                flag_draft,
                flag_archive,
                sacsi_id,
                v2_version,
                created_date,
                last_updated_date,
            },
        )
    }
}

/// Reads a date from its text; no date from the empty text.
fn read_date_text(text: &str) -> (r: Result<Option<i32>, VegCodeError>)
    ensures
        match r {
            Ok(day) => day == day_of_date_text(text@) && (day is None ==> text@.len() == 0),
            Err(e) => e == VegCodeError::InvalidRecord && text@.len() > 0 && day_of_date_text(
                text@,
            ) is None,
        },
{
    if text.unicode_len() == 0 {
        return Ok(None);
    }
    match read_date(text, "%Y-%m-%d") {
        Ok(day) => Ok(Some(day)),
        Err(_) => Err(VegCodeError::InvalidRecord),
    }
}

/// Writes a date as text; no date as the empty text.
fn write_date_text(day: Option<i32>) -> (r: Result<String, VegCodeError>)
    ensures
        match r {
            Ok(text) => date_text_of_day(day) == Some(text@),
            Err(e) => e == VegCodeError::MalformedInput && date_text_of_day(day) is None,
        },
{
    match day {
        Some(day) => match write_date(day, "%Y-%m-%d") {
            Some(text) => Ok(text),
            None => Err(VegCodeError::MalformedInput),
        },
        None => Ok(String::new()),
    }
}

/// Reads the texts of a record.
pub fn details_to_record(details: &VegcodeDetails) -> (r: Result<VegCodeRecord, VegCodeError>)
    ensures
        r == details@.record(),
{
    let version_chars = string_chars(details.vegcode_version.as_str());
    if version_chars.len() != 1 {
        return Err(VegCodeError::InvalidRecord);
    }
    let flag_versioned_file = details.v2_version.as_str().unicode_len() != 0;
    let has_created_date = details.created_date.as_str().unicode_len() > 0;
    let has_last_updated_date = details.last_updated_date.as_str().unicode_len() > 0;
    if has_last_updated_date && (!flag_versioned_file || !has_created_date) {
        return Err(VegCodeError::InvalidRecord);
    }
    let identifier = match sacsi_id_to_base10(details.sacsi_id.clone()) {
        Ok(n) => n,
        Err(e) => {
            return Err(e);
        },
    };
    let semantic_version = if flag_versioned_file {
        match convert_period_separated_string_to_base10(details.v2_version.clone()) {
            Ok(n) => Some(n),
            Err(e) => {
                return Err(e);
            },
        }
    } else {
        None
    };
    let created_date = match read_date_text(details.created_date.as_str()) {
        Ok(day) => day,
        Err(e) => {
            return Err(e);
        },
    };
    let last_updated_date = match read_date_text(details.last_updated_date.as_str()) {
        Ok(day) => day,
        Err(e) => {
            return Err(e);
        },
    };
    Ok(
        VegCodeRecord {
            format_version: version_chars[0],
            is_author: details.flag_author,
            is_draft: details.flag_draft,
            is_archived: details.flag_archive,
            identifier,
            semantic_version,
            created_date,
            last_updated_date,
        },
    )
}

/// Writes a record with its identifier, its version and its dates as text.
pub fn record_to_details(record: &VegCodeRecord) -> (r: Result<VegcodeDetails, VegCodeError>)
    ensures
        match record.details() {
            Ok(details) => r is Ok && r.unwrap()@ == details,
            Err(e) => r == Err::<VegcodeDetails, VegCodeError>(e),
        },
{
    let sacsi_id = match base10_to_sacsi_id(record.identifier) {
        Ok(text) => text,
        Err(e) => {
            return Err(e);
        },
    };
    let v2_version = match record.semantic_version {
        Some(version) => base10_to_period_separated_string(version),
        None => String::new(),
    };
    let created_date = match write_date_text(record.created_date) {
        Ok(text) => text,
        Err(e) => {
            return Err(e);
        },
    };
    let last_updated_date = match write_date_text(record.last_updated_date) {
        Ok(text) => text,
        Err(e) => {
            return Err(e);
        },
    };
    let mut vegcode_version = String::new();
    push_char(&mut vegcode_version, record.format_version);
    Ok(
        VegcodeDetails {
            vegcode_version,
            flag_author: record.is_author,
            flag_draft: record.is_draft,
            flag_archive: record.is_archived,
            sacsi_id,
            v2_version,
            created_date,
            last_updated_date,
        },
    )
}

/// Encodes a record given with its texts.
pub fn encode(details: &VegcodeDetails) -> (r: Result<String, VegCodeError>)
    ensures
        match details@.encoding() {
            Ok(code) => r is Ok && r.unwrap()@ == code,
            Err(e) => r == Err::<String, VegCodeError>(e),
        },
{
    match details_to_record(details) {
        Ok(record) => encode_record(&record),
        Err(e) => Err(e),
    }
}

/// Decodes a code into a record with its texts.
pub fn decode(vegcode: &str) -> (r: Result<VegcodeDetails, VegCodeError>)
    ensures
        match decoding_details(vegcode@) {
            Ok(details) => r is Ok && r.unwrap()@ == details,
            Err(e) => r == Err::<VegcodeDetails, VegCodeError>(e),
        },
{
    match decode_record(vegcode) {
        Ok(record) => record_to_details(&record),
        Err(e) => Err(e),
    }
}

/// The code of format version `0` for a document with the given flags,
/// identifier, version and dates. An empty version stands for a document
/// without versions, an empty date for a date that is not known.
pub fn to_vegcode(
    flag_author: bool,
    flag_draft: bool,
    flag_archive: bool,
    sacsi_id: String,
    v2_version: String,
    created_date: String,
    last_updated_date: String,
) -> (r: Result<String, VegCodeError>)
    ensures
        match details_of(
            flag_author,
            flag_draft,
            flag_archive,
            sacsi_id@,
            v2_version@,
            created_date@,
            last_updated_date@,
        ).encoding() {
            Ok(code) => r is Ok && r.unwrap()@ == code,
            Err(e) => r == Err::<String, VegCodeError>(e),
        },
{
    let mut vegcode_version = String::new();
    push_char(&mut vegcode_version, '0');
    let details = VegcodeDetails {
        vegcode_version,
        flag_author,
        flag_draft,
        flag_archive,
        sacsi_id,
        v2_version,
        created_date,
        last_updated_date,
    };
    encode(&details)
}

/// The record that a code stands for.
pub fn from_vegcode(vegcode: String) -> (r: Result<VegcodeDetails, VegCodeError>)
    ensures
        match decoding_details(vegcode@) {
            Ok(details) => r is Ok && r.unwrap()@ == details,
            Err(e) => r == Err::<VegcodeDetails, VegCodeError>(e),
        },
{
    decode(vegcode.as_str())
}

/// Writing as text what was read from the texts of a record gives the texts
/// back, where they are in the form in which they are written.
pub proof fn lemma_details_of_record(details: VegcodeDetailsView)
    requires
        details.is_canonical(),
        details.record() is Ok,
    ensures
        details.record()->Ok_0.details() == Ok::<VegcodeDetailsView, VegCodeError>(details),
{
    let record = details.record()->Ok_0;
    lemma_sacsi_text_of_value(details.sacsi_id);
    if details.v2_version.len() > 0 {
        lemma_dotted_text_of_value(details.v2_version);
    }
    let written = record.details();
    assert(record.writing_error() is None);
    assert(written->Ok_0.vegcode_version == details.vegcode_version);
    assert(written->Ok_0.sacsi_id == details.sacsi_id);
    assert(written->Ok_0.v2_version == details.v2_version);
    assert(written->Ok_0.created_date == details.created_date);
    assert(written->Ok_0.last_updated_date == details.last_updated_date);
}

/// Decoding the code of a record gives the record back, with its texts.
///
/// This holds of every record that can be encoded and whose texts are in
/// the form in which they are written, but for two kinds: a record created
/// on 1 January 2000, and a record last updated on the day it was created.
/// Their day counts are zero, and a zero is read as a missing date.
pub proof fn lemma_decode_encode_details(details: VegcodeDetailsView)
    requires
        details.is_canonical(),
        details.encoding() is Ok,
        day_of_date_text(details.created_date) != Some(EPOCH_DAY),
        details.last_updated_date.len() > 0 ==> day_of_date_text(details.last_updated_date)
            != day_of_date_text(details.created_date),
    ensures
        decoding_details(details.encoding()->Ok_0) == Ok::<VegcodeDetailsView, VegCodeError>(
            details,
        ),
{
    let record = details.record()->Ok_0;
    lemma_decode_encode(record);
    lemma_details_of_record(details);
}

/// A code whose flags announce no version decodes to a record without a
/// version and without a date of the last update, whatever its other flags
/// say.
pub proof fn lemma_unversioned_code(code: Seq<char>)
    requires
        code.len() >= 2,
        VegCodeFlags::of_symbol(code[1]) matches Some(flags) && !flags.is_versioned,
    ensures
        decoding(code) matches Ok(record) ==> record.semantic_version is None
            && record.last_updated_date is None,
        decoding_details(code) matches Ok(details) ==> details.v2_version.len() == 0
            && details.last_updated_date.len() == 0,
{
}

} // verus!
