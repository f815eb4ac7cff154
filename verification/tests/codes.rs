use vegcode::details::{
    decode, details_to_record, encode, from_vegcode, record_to_details, to_vegcode, VegcodeDetails,
};
use vegcode::error::VegCodeError;
use vegcode::record::VegCodeRecord;

fn details(
    flags: [bool; 3],
    sacsi_id: &str,
    v2_version: &str,
    created_date: &str,
    last_updated_date: &str,
) -> VegcodeDetails {
    VegcodeDetails {
        vegcode_version: "0".to_string(),
        flag_author: flags[0],
        flag_draft: flags[1],
        flag_archive: flags[2],
        sacsi_id: sacsi_id.to_string(),
        v2_version: v2_version.to_string(),
        created_date: created_date.to_string(),
        last_updated_date: last_updated_date.to_string(),
    }
}

fn code_of(
    flags: [bool; 3],
    sacsi_id: &str,
    v2_version: &str,
    created_date: &str,
    last_updated_date: &str,
) -> Result<String, VegCodeError> {
    to_vegcode(
        flags[0],
        flags[1],
        flags[2],
        sacsi_id.to_string(),
        v2_version.to_string(),
        created_date.to_string(),
        last_updated_date.to_string(),
    )
}

const NONE: [bool; 3] = [false, false, false];

#[test]
fn end_to_end() {
    let record = details(NONE, "A21.01.01", "", "2024-04-08", "");
    assert_eq!(
        to_vegcode(
            false,
            false,
            false,
            "A21.01.01".to_string(),
            "".to_string(),
            "2024-04-08".to_string(),
            "".to_string()
        ),
        Ok("0054NL2iY".to_string())
    );
    assert_eq!(encode(&record), Ok("0054NL2iY".to_string()));
    assert_eq!(from_vegcode("0054NL2iY".to_string()), Ok(record));
}

#[test]
fn the_creation_date_is_counted_from_the_first_day_of_2000() {
    let record = details_to_record(&details(NONE, "A21.01.01", "", "2024-04-08", "")).unwrap();
    assert_eq!(record.created_date, Some(730120 + 8864));
    assert_eq!(code_of(NONE, "A21.01.01", "", "2000-01-02", ""), Ok("0054NL1".to_string()));
    assert_eq!(code_of(NONE, "A21.01.01", "", "2000-03-01", ""), Ok("0054NLY".to_string()));
    assert_eq!(code_of(NONE, "A21.01.01", "", "2001-01-01", ""), Ok("0054NL5U".to_string()));
    assert_eq!(code_of(NONE, "A21.01.01", "", "2024-04-08", ""), Ok("0054NL2iY".to_string()));
}

#[test]
fn the_update_is_counted_from_the_creation_date() {
    let record =
        details_to_record(&details(NONE, "J31.01.02", "04.03.00", "2024-04-08", "2024-04-09"))
            .unwrap();
    assert_eq!(record.created_date, Some(730120 + 8864));
    assert_eq!(record.last_updated_date, Some(730120 + 8865));
    assert_eq!(
        code_of(NONE, "J31.01.02", "04.03.00", "2024-04-08", "2024-04-09"),
        Ok("0wHg7Yau02iY1".to_string())
    );
    assert_eq!(
        code_of(NONE, "J31.01.02", "04.03.00", "2024-04-08", "2025-04-08"),
        Ok("0wHg7Yau02iY5T".to_string())
    );
}

#[test]
fn a_record_with_an_update_but_no_creation_date_cannot_be_made() {
    let made = VegcodeDetails::new(
        "0".to_string(),
        false,
        false,
        false,
        "J31.01.02".to_string(),
        "04.03.00".to_string(),
        "".to_string(),
        "2024-04-09".to_string(),
    );
    assert_eq!(made, Err(VegCodeError::InvalidRecord));
    let made = VegcodeDetails::new(
        "0".to_string(),
        false,
        false,
        false,
        "J31.01.02".to_string(),
        "".to_string(),
        "2024-04-08".to_string(),
        "2024-04-09".to_string(),
    );
    assert_eq!(made, Err(VegCodeError::InvalidRecord));
    let made = VegcodeDetails::new(
        "".to_string(),
        false,
        false,
        false,
        "J31.01.02".to_string(),
        "".to_string(),
        "".to_string(),
        "".to_string(),
    );
    assert_eq!(made, Err(VegCodeError::InvalidRecord));
    let made = VegcodeDetails::new(
        "0".to_string(),
        false,
        false,
        true,
        "J31.01.02".to_string(),
        "04.03.00".to_string(),
        "2024-04-08".to_string(),
        "2024-04-09".to_string(),
    );
    assert_eq!(
        made,
        Ok(details([false, false, true], "J31.01.02", "04.03.00", "2024-04-08", "2024-04-09"))
    );
}

#[test]
fn an_update_without_a_creation_date_is_rejected() {
    assert_eq!(
        code_of(NONE, "J31.01.02", "04.03.00", "", "2024-04-09"),
        Err(VegCodeError::InvalidRecord)
    );
    assert_eq!(code_of(NONE, "J31.01.02", "", "", "2024-04-09"), Err(VegCodeError::InvalidRecord));
}

#[test]
fn an_update_without_a_version_is_rejected() {
    assert_eq!(
        code_of(NONE, "J31.01.02", "", "2024-04-08", "2024-04-09"),
        Err(VegCodeError::InvalidRecord)
    );
}

#[test]
fn codes_of_records() {
    assert_eq!(
        code_of([true, false, true], "J31.01.02", "04.03.00", "2024-04-08", "2024-04-09"),
        Ok("0BHg7Yau02iY1".to_string())
    );
    assert_eq!(
        code_of([false, true, false], "Z99.99.99", "99.99.99", "2000-01-02", "2001-01-01"),
        Ok("0W1PhVR4c910015T".to_string())
    );
    assert_eq!(code_of([true, true, true], "j31.01.02", "", "", ""), Ok("07Hg7Y".to_string()));
    assert_eq!(code_of(NONE, "A21.01.01", "04.03.00", "", ""), Ok("0w54NLau0".to_string()));
}

#[test]
fn records_of_codes() {
    assert_eq!(
        from_vegcode("0BHg7Yau02iY1".to_string()),
        Ok(details([true, false, true], "J31.01.02", "04.03.00", "2024-04-08", "2024-04-09"))
    );
    assert_eq!(
        from_vegcode("0W1PhVR4c910015T".to_string()),
        Ok(details([false, true, false], "Z99.99.99", "99.99.99", "2000-01-02", "2001-01-01"))
    );
    assert_eq!(
        from_vegcode("07Hg7Y".to_string()),
        Ok(details([true, true, true], "J31.01.02", "", "", ""))
    );
    assert_eq!(
        decode("0w54NLau0"),
        Ok(details(NONE, "A21.01.01", "04.03.00", "", ""))
    );
}

#[test]
fn round_trip_of_records_as_they_are_written() {
    let records = [
        details(NONE, "A21.01.01", "", "", ""),
        details(NONE, "A21.01.01", "", "2024-04-08", ""),
        details([true, false, false], "J31.01.02", "04.03.00", "", ""),
        details([false, true, false], "J31.01.02", "04.03.00", "2024-04-08", ""),
        details([false, false, true], "J31.01.02", "04.03.00", "2024-04-08", "2024-04-09"),
        details([true, true, true], "Z99.99.99", "99.99.99", "2000-01-02", "2099-12-31"),
        details(NONE, "N47.76.35", "38.44", "2652-07-08", "2653-01-01"),
        details(NONE, "N47.76.36", "23.83.28", "2000-02-29", "2000-03-01"),
        details(NONE, "B01", "", "9999-12-31", ""),
        details(NONE, "B01.02", "01.00.00", "2000-01-02", "9999-12-31"),
    ];
    for record in records {
        let code = encode(&record).unwrap();
        assert_eq!(decode(&code), Ok(record));
    }
}

#[test]
fn a_code_without_the_flag_for_a_version_has_no_version() {
    for (i, flags) in "0123456789abcdefghijklmnopqrstuv".chars().enumerate() {
        let identifier = if i & 8 != 0 { "0Hg7Y" } else { "Hg7Y" };
        let record = from_vegcode(format!("0{}{}2iY", flags, identifier)).unwrap();
        assert_eq!(record.sacsi_id, "J31.01.02");
        assert_eq!(record.created_date, "2024-04-08");
        assert_eq!(record.v2_version, "");
        assert_eq!(record.last_updated_date, "");
    }
    assert_eq!(
        from_vegcode("0gHg7Y2iY".to_string()),
        Ok(details(NONE, "J31.01.02", "", "2024-04-08", ""))
    );
}

#[test]
fn a_small_letter_is_read_and_a_capital_written() {
    let code = code_of(NONE, "j31.01.02", "", "", "").unwrap();
    assert_eq!(from_vegcode(code).unwrap().sacsi_id, "J31.01.02");
}

#[test]
fn the_format_version_is_kept() {
    let record = VegcodeDetails {
        vegcode_version: "7".to_string(),
        ..details(NONE, "A21.01.01", "", "", "")
    };
    assert_eq!(encode(&record), Ok("7054NL".to_string()));
    assert_eq!(decode("7054NL"), Ok(record));
    let none = VegcodeDetails {
        vegcode_version: "".to_string(),
        ..details(NONE, "A21.01.01", "", "", "")
    };
    assert_eq!(encode(&none), Err(VegCodeError::InvalidRecord));
    let long = VegcodeDetails {
        vegcode_version: "10".to_string(),
        ..details(NONE, "A21.01.01", "", "", "")
    };
    assert_eq!(encode(&long), Err(VegCodeError::InvalidRecord));
}

#[test]
fn a_bad_identifier_is_rejected() {
    for id in ["", "21.01.01", "A", "A21.01.", "A21.0x.01", "?21.01.01"] {
        assert_eq!(code_of(NONE, id, "", "", ""), Err(VegCodeError::InvalidIdentifier));
    }
    assert_eq!(
        code_of(NONE, "Z9.00.00.00.00", "", "", ""),
        Err(VegCodeError::InvalidIdentifier)
    );
}

#[test]
fn a_bad_version_is_rejected() {
    for version in [".", "04.", "04.0x", "4,3", "00.00.05", "38.43", "1.00.00.00.00"] {
        assert_eq!(
            code_of(NONE, "A21.01.01", version, "", ""),
            Err(VegCodeError::InvalidVersion)
        );
    }
    assert_eq!(code_of(NONE, "A21.01.01", "38.44", "", ""), Ok("0w54NL100".to_string()));
}

#[test]
fn a_bad_date_is_rejected() {
    for date in ["2024", "2024-13-01", "2024-02-30", "08/04/2024", "yesterday", "2024-04-08x"] {
        assert_eq!(code_of(NONE, "A21.01.01", "", date, ""), Err(VegCodeError::InvalidRecord));
        assert_eq!(
            code_of(NONE, "A21.01.01", "04.03.00", "2024-04-08", date),
            Err(VegCodeError::InvalidRecord)
        );
    }
}

#[test]
fn a_date_before_the_first_day_of_2000_is_rejected() {
    assert_eq!(
        code_of(NONE, "A21.01.01", "", "1999-12-31", ""),
        Err(VegCodeError::InvalidRecord)
    );
    assert_eq!(
        code_of(NONE, "A21.01.01", "04.03.00", "2024-04-08", "2024-04-07"),
        Err(VegCodeError::InvalidRecord)
    );
}

#[test]
fn a_creation_date_too_late_for_its_field_is_rejected() {
    assert_eq!(
        code_of(NONE, "A21.01.01", "04.03.00", "2652-07-08", ""),
        Ok("0w54NLau0ZZZ".to_string())
    );
    assert_eq!(
        code_of(NONE, "A21.01.01", "04.03.00", "2652-07-09", ""),
        Err(VegCodeError::InvalidRecord)
    );
    assert_eq!(code_of(NONE, "A21.01.01", "", "2652-07-09", ""), Ok("0054NL1000".to_string()));
}

#[test]
fn a_day_count_of_zero_is_read_as_no_date() {
    assert_eq!(code_of(NONE, "A21.01.01", "", "2000-01-01", ""), Ok("0054NL".to_string()));
    assert_eq!(
        from_vegcode("0054NL".to_string()),
        Ok(details(NONE, "A21.01.01", "", "", ""))
    );
    assert_eq!(
        code_of(NONE, "J31.01.02", "04.03.00", "2024-04-08", "2024-04-08"),
        Ok("0wHg7Yau02iY".to_string())
    );
    assert_eq!(
        from_vegcode("0wHg7Yau02iY".to_string()),
        Ok(details(NONE, "J31.01.02", "04.03.00", "2024-04-08", ""))
    );
}

#[test]
fn a_leading_group_of_zeros_is_not_written_back() {
    let code = code_of(NONE, "A00.01.02", "", "", "").unwrap();
    assert_eq!(from_vegcode(code).unwrap().sacsi_id, "A01.02");
}

#[test]
fn decoding_text_rejects_bad_codes() {
    assert_eq!(from_vegcode("".to_string()), Err(VegCodeError::MalformedInput));
    assert_eq!(from_vegcode("0".to_string()), Err(VegCodeError::MalformedInput));
    assert_eq!(from_vegcode("0054N".to_string()), Err(VegCodeError::MalformedInput));
    assert_eq!(from_vegcode("0wHg7Yau02".to_string()), Err(VegCodeError::MalformedInput));
    assert_eq!(from_vegcode("0*54NL".to_string()), Err(VegCodeError::InvalidSymbol));
    assert_eq!(from_vegcode("0054_L".to_string()), Err(VegCodeError::InvalidSymbol));
    assert_eq!(from_vegcode("0054NL2i?".to_string()), Err(VegCodeError::InvalidSymbol));
    assert_eq!(from_vegcode("08ZZZZZ".to_string()), Err(VegCodeError::InvalidIdentifier));
    assert_eq!(from_vegcode("000001".to_string()), Err(VegCodeError::InvalidIdentifier));
}

#[test]
fn decoding_rejects_dates_that_cannot_be_written() {
    assert_eq!(from_vegcode("0054NL2lhyET".to_string()), Err(VegCodeError::MalformedInput));
    assert_eq!(from_vegcode("0054NL2lhyEU".to_string()), Err(VegCodeError::MalformedInput));
}

#[test]
fn records_and_their_texts() {
    let record = VegCodeRecord {
        format_version: '0',
        is_author: true,
        is_draft: false,
        is_archived: true,
        identifier: 10310102,
        semantic_version: Some(40300),
        created_date: Some(738984),
        last_updated_date: Some(738985),
    };
    let texts = details([true, false, true], "J31.01.02", "04.03.00", "2024-04-08", "2024-04-09");
    assert_eq!(details_to_record(&texts), Ok(record));
    assert_eq!(record_to_details(&record), Ok(texts));
}

#[test]
fn dates_are_written_by_the_calendar() {
    let record = VegCodeRecord {
        format_version: '0',
        is_author: false,
        is_draft: false,
        is_archived: false,
        identifier: 1210101,
        semantic_version: None,
        created_date: Some(1),
        last_updated_date: None,
    };
    assert_eq!(record_to_details(&record).unwrap().created_date, "0001-01-01");
    let leap = VegCodeRecord { created_date: Some(730120 + 59), ..record };
    assert_eq!(record_to_details(&leap).unwrap().created_date, "2000-02-29");
    let end = VegCodeRecord { created_date: Some(730120 + 365), ..record };
    assert_eq!(record_to_details(&end).unwrap().created_date, "2000-12-31");
    let beyond = VegCodeRecord { created_date: Some(i32::MAX), ..record };
    assert_eq!(record_to_details(&beyond), Err(VegCodeError::MalformedInput));
}

#[test]
fn dates_are_read_by_the_calendar() {
    let record = details_to_record(&details(NONE, "A21.01.01", "", "0001-01-01", "")).unwrap();
    assert_eq!(record.created_date, Some(1));
    let record = details_to_record(&details(NONE, "A21.01.01", "", "2000-02-29", "")).unwrap();
    assert_eq!(record.created_date, Some(730120 + 59));
    let record = details_to_record(&details(NONE, "A21.01.01", "", "1970-01-01", "")).unwrap();
    assert_eq!(record.created_date, Some(719163));
}
