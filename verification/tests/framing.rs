use vegcode::error::VegCodeError;
use vegcode::frame::{vegcode_parsed_to_vegcode, vegcode_to_vegcode_parsed, VegCodeParsed};

fn parsed(fields: [&str; 6]) -> VegCodeParsed {
    VegCodeParsed {
        vegcode_version: fields[0].to_string(),
        flags: fields[1].to_string(),
        sacsi_id: fields[2].to_string(),
        v2_version: fields[3].to_string(),
        created_date: fields[4].to_string(),
        last_updated_date: fields[5].to_string(),
    }
}

#[test]
fn fields_are_joined_in_order() {
    assert_eq!(
        vegcode_parsed_to_vegcode(parsed(["0", "B", "Hg7Y", "au0", "2iY", "1"])),
        "0BHg7Yau02iY1"
    );
    assert_eq!(vegcode_parsed_to_vegcode(parsed(["0", "0", "54NL", "", "2iY", ""])), "0054NL2iY");
    assert_eq!(vegcode_parsed_to_vegcode(parsed(["", "", "", "", "", ""])), "");
}

#[test]
fn code_without_a_version_is_taken_apart() {
    assert_eq!(
        vegcode_to_vegcode_parsed("0054NL2iY"),
        Ok(parsed(["0", "0", "54NL", "", "2iY", ""]))
    );
    assert_eq!(vegcode_to_vegcode_parsed("0054NL"), Ok(parsed(["0", "0", "54NL", "", "", ""])));
    assert_eq!(
        vegcode_to_vegcode_parsed("0054NL1234567"),
        Ok(parsed(["0", "0", "54NL", "", "1234567", ""]))
    );
    assert_eq!(
        vegcode_to_vegcode_parsed("081PhVR5T"),
        Ok(parsed(["0", "8", "1PhVR", "", "5T", ""]))
    );
}

#[test]
fn code_with_a_version_is_taken_apart() {
    assert_eq!(
        vegcode_to_vegcode_parsed("0BHg7Yau02iY1"),
        Ok(parsed(["0", "B", "Hg7Y", "au0", "2iY", "1"]))
    );
    assert_eq!(
        vegcode_to_vegcode_parsed("0W1PhVR4c910015T"),
        Ok(parsed(["0", "W", "1PhVR", "4c91", "001", "5T"]))
    );
    assert_eq!(
        vegcode_to_vegcode_parsed("0wHg7Yau02iY"),
        Ok(parsed(["0", "w", "Hg7Y", "au0", "2iY", ""]))
    );
    assert_eq!(
        vegcode_to_vegcode_parsed("0wHg7Yau0"),
        Ok(parsed(["0", "w", "Hg7Y", "au0", "", ""]))
    );
}

#[test]
fn the_length_flag_of_the_version_counts_only_with_a_version() {
    assert_eq!(
        vegcode_to_vegcode_parsed("0g54NL2iY"),
        Ok(parsed(["0", "g", "54NL", "", "2iY", ""]))
    );
}

#[test]
fn splitting_and_joining_round_trip() {
    for code in ["0054NL2iY", "0BHg7Yau02iY1", "0W1PhVR4c910015T", "07Hg7Y", "0w54NLau0"] {
        let fields = vegcode_to_vegcode_parsed(code).unwrap();
        assert_eq!(vegcode_parsed_to_vegcode(fields), code);
    }
}

#[test]
fn a_code_that_is_too_short_is_rejected() {
    assert_eq!(vegcode_to_vegcode_parsed(""), Err(VegCodeError::MalformedInput));
    assert_eq!(vegcode_to_vegcode_parsed("0"), Err(VegCodeError::MalformedInput));
    assert_eq!(vegcode_to_vegcode_parsed("00"), Err(VegCodeError::MalformedInput));
    assert_eq!(vegcode_to_vegcode_parsed("0054N"), Err(VegCodeError::MalformedInput));
    assert_eq!(vegcode_to_vegcode_parsed("0854NL"), Err(VegCodeError::MalformedInput));
    assert_eq!(vegcode_to_vegcode_parsed("0wHg7Yau"), Err(VegCodeError::MalformedInput));
    assert_eq!(vegcode_to_vegcode_parsed("0MHg7Yau0"), Err(VegCodeError::MalformedInput));
    assert_eq!(vegcode_to_vegcode_parsed("0wHg7Yau02"), Err(VegCodeError::MalformedInput));
    assert_eq!(vegcode_to_vegcode_parsed("0wHg7Yau02i"), Err(VegCodeError::MalformedInput));
}

#[test]
fn a_code_without_flags_is_rejected() {
    assert_eq!(vegcode_to_vegcode_parsed("0.54NL"), Err(VegCodeError::InvalidSymbol));
    assert_eq!(vegcode_to_vegcode_parsed("0 "), Err(VegCodeError::InvalidSymbol));
}
