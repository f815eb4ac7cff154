use vegcode::dotted::{
    base10_to_period_separated_string, base62_to_period_separated_string,
    convert_period_separated_string_to_base10, read_dotted,
};
use vegcode::error::VegCodeError;
use vegcode::sacsi::{base10_to_sacsi_id, base62_to_sacsi_id, letter_place, sacsi_id_to_base10};

#[test]
fn identifier_round_trip() {
    assert_eq!(sacsi_id_to_base10("J31.01.02".to_string()), Ok(10310102));
    assert_eq!(base10_to_sacsi_id(10310102), Ok("J31.01.02".to_string()));
}

#[test]
fn identifier_is_written_with_a_capital() {
    assert_eq!(sacsi_id_to_base10("j31.01.02".to_string()), Ok(10310102));
    let n = sacsi_id_to_base10("j31.01.02".to_string()).unwrap();
    assert_eq!(base10_to_sacsi_id(n), Ok("J31.01.02".to_string()));
}

#[test]
fn identifier_numbers() {
    assert_eq!(sacsi_id_to_base10("A21.01.01".to_string()), Ok(1210101));
    assert_eq!(sacsi_id_to_base10("a00.00.01".to_string()), Ok(1000001));
    assert_eq!(sacsi_id_to_base10("Z99.99.99".to_string()), Ok(26999999));
    assert_eq!(sacsi_id_to_base10("B7".to_string()), Ok(2000007));
    assert_eq!(sacsi_id_to_base10("B3.1.2".to_string()), Ok(2030102));
}

#[test]
fn identifier_texts() {
    assert_eq!(base10_to_sacsi_id(1210101), Ok("A21.01.01".to_string()));
    assert_eq!(base10_to_sacsi_id(26999999), Ok("Z99.99.99".to_string()));
    assert_eq!(base10_to_sacsi_id(1000102), Ok("A01.02".to_string()));
    assert_eq!(base10_to_sacsi_id(1000000), Ok("A".to_string()));
}

#[test]
fn identifier_without_a_letter_is_rejected() {
    for id in ["", "31.01.02", ".31", "1A", "é31.01.02", "@31", "[31", "`31", "{31"] {
        assert_eq!(sacsi_id_to_base10(id.to_string()), Err(VegCodeError::InvalidIdentifier));
    }
}

#[test]
fn identifier_with_a_bad_group_is_rejected() {
    for id in ["J", "J.", "J31.", "J.31", "J31..02", "J31.0x.02", "J31 01", "J+3", "J-3", "JJ"] {
        assert_eq!(sacsi_id_to_base10(id.to_string()), Err(VegCodeError::InvalidIdentifier));
    }
}

#[test]
fn identifier_beyond_u64_is_rejected() {
    assert_eq!(
        sacsi_id_to_base10("A18446744073708551615".to_string()),
        Ok(u64::MAX)
    );
    assert_eq!(
        sacsi_id_to_base10("A18446744073708551616".to_string()),
        Err(VegCodeError::InvalidIdentifier)
    );
    assert_eq!(
        sacsi_id_to_base10("A99.99.99.99.99.99.99.99.99.99.99".to_string()),
        Err(VegCodeError::InvalidIdentifier)
    );
}

#[test]
fn number_without_a_letter_has_no_identifier() {
    assert_eq!(base10_to_sacsi_id(0), Err(VegCodeError::InvalidIdentifier));
    assert_eq!(base10_to_sacsi_id(999999), Err(VegCodeError::InvalidIdentifier));
    assert_eq!(base10_to_sacsi_id(27000000), Err(VegCodeError::InvalidIdentifier));
    assert_eq!(base10_to_sacsi_id(u64::MAX), Err(VegCodeError::InvalidIdentifier));
}

#[test]
fn places_of_letters() {
    assert_eq!(letter_place('a'), Some(1));
    assert_eq!(letter_place('A'), Some(1));
    assert_eq!(letter_place('j'), Some(10));
    assert_eq!(letter_place('Z'), Some(26));
    assert_eq!(letter_place('0'), None);
    assert_eq!(letter_place('é'), None);
}

#[test]
fn version_numbers() {
    assert_eq!(convert_period_separated_string_to_base10("04.03.00".to_string()), Ok(40300));
    assert_eq!(convert_period_separated_string_to_base10("31.01.02".to_string()), Ok(310102));
    assert_eq!(convert_period_separated_string_to_base10("01.02".to_string()), Ok(102));
    assert_eq!(convert_period_separated_string_to_base10("7".to_string()), Ok(7));
    assert_eq!(convert_period_separated_string_to_base10("0".to_string()), Ok(0));
    assert_eq!(convert_period_separated_string_to_base10("1.2.3".to_string()), Ok(10203));
    assert_eq!(convert_period_separated_string_to_base10("100.0".to_string()), Ok(10000));
    assert_eq!(convert_period_separated_string_to_base10("0000000000000000000000001".to_string()), Ok(1));
}

#[test]
fn version_with_a_bad_group_is_rejected() {
    for v in ["", ".", "04.", ".04", "04..03", "04.0a.00", "04,03", " 04", "+4", "-4", "4.٣"] {
        assert_eq!(
            convert_period_separated_string_to_base10(v.to_string()),
            Err(VegCodeError::InvalidVersion)
        );
    }
}

#[test]
fn version_beyond_u64_is_rejected() {
    assert_eq!(
        convert_period_separated_string_to_base10("18446744073709551615".to_string()),
        Ok(u64::MAX)
    );
    assert_eq!(
        convert_period_separated_string_to_base10("18446744073709551616".to_string()),
        Err(VegCodeError::InvalidVersion)
    );
    assert_eq!(
        convert_period_separated_string_to_base10("18.44.67.44.07.37.09.55.16.15".to_string()),
        Ok(u64::MAX)
    );
    assert_eq!(
        convert_period_separated_string_to_base10("18.44.67.44.07.37.09.55.16.16".to_string()),
        Err(VegCodeError::InvalidVersion)
    );
    assert_eq!(
        convert_period_separated_string_to_base10("1.00.00.00.00.00.00.00.00.00.00".to_string()),
        Err(VegCodeError::InvalidVersion)
    );
}

#[test]
fn reading_from_a_position() {
    let v: Vec<char> = "J31.01.02".chars().collect();
    assert_eq!(read_dotted(&v, 1), Some(310102));
    assert_eq!(read_dotted(&v, 4), Some(102));
    assert_eq!(read_dotted(&v, 3), None);
    assert_eq!(read_dotted(&v, 9), None);
    assert_eq!(read_dotted(&v, 0), None);
}

#[test]
fn version_texts_have_two_digits_in_each_group() {
    assert_eq!(base10_to_period_separated_string(0), "");
    assert_eq!(base10_to_period_separated_string(5), "05");
    assert_eq!(base10_to_period_separated_string(99), "99");
    assert_eq!(base10_to_period_separated_string(100), "01.00");
    assert_eq!(base10_to_period_separated_string(102), "01.02");
    assert_eq!(base10_to_period_separated_string(40300), "04.03.00");
    assert_eq!(base10_to_period_separated_string(310102), "31.01.02");
    assert_eq!(base10_to_period_separated_string(999999), "99.99.99");
    assert_eq!(base10_to_period_separated_string(1000000), "01.00.00.00");
    assert_eq!(
        base10_to_period_separated_string(u64::MAX),
        "18.44.67.44.07.37.09.55.16.15"
    );
}

#[test]
fn version_round_trip() {
    for n in [1u64, 5, 99, 100, 3844, 40300, 238328, 999999, 14776335, u64::MAX] {
        let text = base10_to_period_separated_string(n);
        assert_eq!(convert_period_separated_string_to_base10(text), Ok(n));
    }
    for text in ["04.03.00", "31.01.02", "99.99.99", "10.00", "01"] {
        let n = convert_period_separated_string_to_base10(text.to_string()).unwrap();
        assert_eq!(base10_to_period_separated_string(n), text);
    }
}

#[test]
fn a_leading_group_of_zeros_is_lost() {
    let n = convert_period_separated_string_to_base10("00.03.00".to_string()).unwrap();
    assert_eq!(n, 300);
    assert_eq!(base10_to_period_separated_string(n), "03.00");
    let n = sacsi_id_to_base10("A00.01.02".to_string()).unwrap();
    assert_eq!(base10_to_sacsi_id(n), Ok("A01.02".to_string()));
}

#[test]
fn from_base62() {
    assert_eq!(base62_to_period_separated_string("au0".to_string()), Ok("04.03.00".to_string()));
    assert_eq!(base62_to_period_separated_string("".to_string()), Ok("".to_string()));
    assert_eq!(
        base62_to_period_separated_string("a-0".to_string()),
        Err(VegCodeError::InvalidSymbol)
    );
    assert_eq!(
        base62_to_period_separated_string("ZZZZZZZZZZZZ".to_string()),
        Err(VegCodeError::MalformedInput)
    );
    assert_eq!(base62_to_sacsi_id("Hg7Y".to_string()), Ok("J31.01.02".to_string()));
    assert_eq!(base62_to_sacsi_id("54NL".to_string()), Ok("A21.01.01".to_string()));
    assert_eq!(base62_to_sacsi_id("ZZZ".to_string()), Err(VegCodeError::InvalidIdentifier));
    assert_eq!(base62_to_sacsi_id("ZZZZZ".to_string()), Err(VegCodeError::InvalidIdentifier));
    assert_eq!(base62_to_sacsi_id("Hg_Y".to_string()), Err(VegCodeError::InvalidSymbol));
    assert_eq!(base62_to_sacsi_id("ZZZZZZZZZZZZ".to_string()), Err(VegCodeError::MalformedInput));
}
