use vegcode::error::VegCodeError;
use vegcode::flags::{pack_flags, unpack_flags, VegCodeFlags};

fn flags_of(number: u8) -> VegCodeFlags {
    VegCodeFlags {
        is_versioned: number & 32 != 0,
        version_is_4_chars: number & 16 != 0,
        sacsi_is_5_chars: number & 8 != 0,
        is_archived: number & 4 != 0,
        is_draft: number & 2 != 0,
        is_author: number & 1 != 0,
    }
}

#[test]
fn flags_round_trip_for_all_combinations() {
    for number in 0..64u8 {
        let flags = flags_of(number);
        let symbol = pack_flags(flags);
        assert_eq!(symbol.chars().count(), 1);
        assert_eq!(unpack_flags(symbol.chars().next().unwrap()), Ok(flags));
    }
}

#[test]
fn every_symbol_unpacks_to_the_flags_that_pack_to_it() {
    let alphabet = "0123456789abcdefghijklmnopqrstuvwxyzABCDEFGHIJKLMNOPQRSTUVWXYZ-_";
    for (i, c) in alphabet.chars().enumerate() {
        assert_eq!(unpack_flags(c), Ok(flags_of(i as u8)));
        assert_eq!(pack_flags(flags_of(i as u8)), c.to_string());
    }
}

#[test]
fn packed_flags() {
    assert_eq!(pack_flags(flags_of(0)), "0");
    let author = VegCodeFlags {
        is_versioned: false,
        version_is_4_chars: false,
        sacsi_is_5_chars: false,
        is_archived: false,
        is_draft: false,
        is_author: true,
    };
    assert_eq!(pack_flags(author), "1");
    let draft = VegCodeFlags { is_draft: true, is_author: false, ..author };
    assert_eq!(pack_flags(draft), "2");
    let archived = VegCodeFlags { is_archived: true, is_author: false, ..author };
    assert_eq!(pack_flags(archived), "4");
    let five = VegCodeFlags { sacsi_is_5_chars: true, is_author: false, ..author };
    assert_eq!(pack_flags(five), "8");
    let four = VegCodeFlags { version_is_4_chars: true, is_author: false, ..author };
    assert_eq!(pack_flags(four), "g");
    let versioned = VegCodeFlags { is_versioned: true, is_author: false, ..author };
    assert_eq!(pack_flags(versioned), "w");
    assert_eq!(pack_flags(flags_of(63)), "_");
}

#[test]
fn unpacked_flags() {
    let flags = unpack_flags('B').unwrap();
    assert!(flags.is_versioned);
    assert!(!flags.version_is_4_chars);
    assert!(!flags.sacsi_is_5_chars);
    assert!(flags.is_archived);
    assert!(!flags.is_draft);
    assert!(flags.is_author);
}

#[test]
fn a_foreign_character_holds_no_flags() {
    for c in ['.', ' ', '+', '/', '=', 'é'] {
        assert_eq!(unpack_flags(c), Err(VegCodeError::InvalidSymbol));
    }
}
