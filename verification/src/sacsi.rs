//! Identifiers: a letter, then a dotted decimal, as in `J31.01.02`.
//!
//! An identifier stands for the place of its letter in the alphabet times
//! 1,000,000, plus the number of its dotted decimal: 10,310,102 for
//! `J31.01.02`. The case of the letter does not matter when an identifier is
//! read; it is written with a capital.

use vstd::prelude::*;
use crate::dotted::{
    are_canonical_groups, base10_to_period_separated_string, dotted_groups, dotted_text,
    dotted_value, group_count, groups_value, is_canonical_dotted, is_decimal_group,
    is_dotted_decimal, lemma_dotted_text_of_value, lemma_dotted_value_nonnegative,
    lemma_dotted_value_of_text, lemma_two_digits, read_dotted,
};
use crate::error::VegCodeError;
use crate::numeral::read_numeral_result;
use crate::radix::base62_to_base10;
use crate::text::{push_char, string_chars};

verus! {

/// The place in the alphabet of the letter `c`, from 1 for `a` or `A` to 26
/// for `z` or `Z`.
pub open spec fn letter_index(c: char) -> Option<int> {
    if 'a' <= c <= 'z' {
        Some(c as int - 'a' as int + 1)
    } else if 'A' <= c <= 'Z' {
        Some(c as int - 'A' as int + 1)
    } else {
        None
    }
}

/// The capital letter at place `index` of the alphabet, for
/// `1 <= index <= 26`.
pub open spec fn index_letter(index: int) -> char {
    ('A' as int + index - 1) as char
}

/// The capital of the small letter `c`; any other character is left as it
/// is.
pub open spec fn capital(c: char) -> char {
    if 'a' <= c <= 'z' {
        (c as int - 'a' as int + 'A' as int) as char
    } else {
        c
    }
}

/// The identifier `s` with a capital for its letter.
pub open spec fn capitalized(s: Seq<char>) -> Seq<char> {
    if s.len() > 0 {
        s.update(0, capital(s[0]))
    } else {
        s
    }
}

/// Whether `s` is an identifier: a letter, then a dotted decimal.
pub open spec fn is_sacsi_id(s: Seq<char>) -> bool {
    s.len() > 0 && letter_index(s[0]) is Some && is_dotted_decimal(s.skip(1))
}

/// The number that the identifier `s` stands for.
pub open spec fn sacsi_value(s: Seq<char>) -> int {
    letter_index(s[0]).unwrap() * 1_000_000 + dotted_value(s.skip(1))
}

/// What reading `s` as an identifier gives: its number, or nothing where `s`
/// is no identifier or the number is larger than any `u64`.
pub open spec fn sacsi_number(s: Seq<char>) -> Option<u64> {
    if is_sacsi_id(s) && sacsi_value(s) <= u64::MAX {
        Some(sacsi_value(s) as u64)
    } else {
        None
    }
}

/// What writing `n` as an identifier gives: the capital letter whose place
/// in the alphabet is `n / 1,000,000`, then the dotted decimal of the rest;
/// or nothing where there is no such letter.
pub open spec fn sacsi_text(n: nat) -> Option<Seq<char>> {
    if 1 <= n / 1_000_000 <= 26 {
        Some(seq![index_letter((n / 1_000_000) as int)] + dotted_text(n % 1_000_000))
    } else {
        None
    }
}

/// Whether `s` is an identifier in the form in which it is written: a
/// capital letter, then at most three groups of two digits, the first of
/// them not `00`.
pub open spec fn is_canonical_sacsi_id(s: Seq<char>) -> bool {
    &&& s.len() > 0
    &&& 'A' <= s[0] <= 'Z'
    &&& is_canonical_dotted(s.skip(1))
    &&& dotted_groups(s.skip(1)).len() <= 3
}

/// The place in the alphabet of the letter `c`, whatever its case.
pub fn letter_place(c: char) -> (r: Option<u64>)
    ensures
        match r {
            Some(place) => letter_index(c) == Some(place as int),
            None => letter_index(c) is None,
        },
{
    let code: u32 = c as u32;
    if 97 <= code && code <= 122 {
        Some((code - 96) as u64)
    } else if 65 <= code && code <= 90 {
        Some((code - 64) as u64)
    } else {
        None
    }
}

/// The number that an identifier such as `J31.01.02` stands for; the case of
/// the letter does not matter. `InvalidIdentifier` where `sacsi_id` is no
/// identifier, or where the number is larger than any `u64`.
pub fn sacsi_id_to_base10(sacsi_id: String) -> (r: Result<u64, VegCodeError>)
    ensures
        match r {
            Ok(n) => sacsi_number(sacsi_id@) == Some(n),
            Err(e) => e == VegCodeError::InvalidIdentifier && sacsi_number(sacsi_id@) is None,
        },
{
    let v = string_chars(sacsi_id.as_str());
    if v.len() == 0 {
        return Err(VegCodeError::InvalidIdentifier);
    }
    let first_char: u64 = match letter_place(v[0]) {
        Some(place) => place,
        None => {
            return Err(VegCodeError::InvalidIdentifier);
        },
    };
    let first_char: u64 = first_char * 1_000_000;
    let rest_of_id = match read_dotted(&v, 1) {
        Some(n) => n,
        None => {
            proof {
                if is_dotted_decimal(v@.skip(1)) {
                    lemma_dotted_value_nonnegative(v@.skip(1));
                }
            }
            return Err(VegCodeError::InvalidIdentifier);
        },
    };
    proof {
        lemma_dotted_value_nonnegative(v@.skip(1));
    }
    match first_char.checked_add(rest_of_id) {
        Some(n) => Ok(n),
        None => Err(VegCodeError::InvalidIdentifier),
    }
}

/// The identifier that `num` stands for, such as `J31.01.02` for 10310102.
/// `InvalidIdentifier` where `num / 1,000,000` is not the place of a letter.
pub fn base10_to_sacsi_id(num: u64) -> (r: Result<String, VegCodeError>)
    ensures
        match r {
            Ok(s) => sacsi_text(num as nat) == Some(s@),
            Err(e) => e == VegCodeError::InvalidIdentifier && sacsi_text(num as nat) is None,
        },
{
    let place: u64 = num / 1_000_000;
    if place < 1 || place > 26 {
        return Err(VegCodeError::InvalidIdentifier);
    }
    let first_char: char = (64u8 + place as u8) as char;
    let mut sacsi_id = String::new();
    push_char(&mut sacsi_id, first_char);
    let rest_of_id: u64 = num % 1_000_000;
    sacsi_id.append(base10_to_period_separated_string(rest_of_id).as_str());
    Ok(sacsi_id)
}

/// The identifier of the number that the base 62 numeral `string_base62`
/// denotes.
pub fn base62_to_sacsi_id(string_base62: String) -> (r: Result<String, VegCodeError>)
    ensures
        match read_numeral_result(string_base62@, 62, VegCodeError::InvalidSymbol) {
            Ok(n) => match sacsi_text(n as nat) {
                Some(id) => r is Ok && r.unwrap()@ == id,
                None => r == Err::<String, VegCodeError>(VegCodeError::InvalidIdentifier),
            },
            Err(e) => r == Err::<String, VegCodeError>(e),
        },
{
    match base62_to_base10(string_base62) {
        Ok(num) => base10_to_sacsi_id(num),
        Err(e) => Err(e),
    }
}

/// At most three groups of two digits denote a number below 1,000,000.
proof fn lemma_three_groups_value(groups: Seq<Seq<char>>)
    requires
        are_canonical_groups(groups),
        groups.len() <= 3,
    ensures
        groups_value(groups) < 1_000_000,
{
    let g0 = groups.take(0);
    let g1 = groups.take(1);
    let g2 = groups.take(2);
    let g3 = groups.take(3);
    assert(groups_value(g0) == 0);
    assert(is_decimal_group(groups[0]));
    lemma_two_digits(groups[0]);
    assert(g1.drop_last() == g0);
    assert(g1.last() == groups[0]);
    assert(groups_value(g1) < 100);
    if groups.len() == 1 {
        assert(g1 == groups);
    } else {
        assert(is_decimal_group(groups[1]));
        lemma_two_digits(groups[1]);
        assert(g2.drop_last() == g1);
        assert(g2.last() == groups[1]);
        assert(groups_value(g2) < 10_000);
        if groups.len() == 2 {
            assert(g2 == groups);
        } else {
            assert(is_decimal_group(groups[2]));
            lemma_two_digits(groups[2]);
            assert(g3.drop_last() == g2);
            assert(g3.last() == groups[2]);
            assert(groups_value(g3) < 1_000_000);
            assert(g3 == groups);
        }
    }
}

/// Writing the number of an identifier that is in the form in which it is
/// written gives it back.
pub proof fn lemma_sacsi_text_of_value(s: Seq<char>)
    requires
        is_canonical_sacsi_id(s),
    ensures
        sacsi_number(s) is Some,
        sacsi_text(sacsi_number(s).unwrap() as nat) == Some(s),
{
    let rest = s.skip(1);
    lemma_dotted_text_of_value(rest);
    lemma_three_groups_value(dotted_groups(rest));
    assert(seq![s[0]] + rest == s);
}

/// An identifier stands for the same number whether its letter is small or
/// capital.
pub proof fn lemma_sacsi_letter_case(s: Seq<char>)
    ensures
        sacsi_number(capitalized(s)) == sacsi_number(s),
{
    if s.len() > 0 {
        assert(capitalized(s).skip(1) == s.skip(1));
    }
}

/// Writing the number of an identifier gives the identifier back with a
/// capital for its letter, where that is the form in which an identifier is
/// written.
pub proof fn lemma_sacsi_text_of_number(s: Seq<char>)
    requires
        is_canonical_sacsi_id(capitalized(s)),
    ensures
        sacsi_number(s) is Some,
        sacsi_text(sacsi_number(s).unwrap() as nat) == Some(capitalized(s)),
{
    lemma_sacsi_letter_case(s);
    lemma_sacsi_text_of_value(capitalized(s));
}

/// The identifier of a number is in the form in which identifiers are
/// written, and reading it gives the number back. This holds of every
/// number that has an identifier, but for the multiples of 1,000,000: their
/// identifier is a letter alone, which is not read as an identifier.
pub proof fn lemma_sacsi_value_of_text(n: nat)
    requires
        sacsi_text(n) is Some,
        n % 1_000_000 > 0,
    ensures
        is_canonical_sacsi_id(sacsi_text(n).unwrap()),
        sacsi_number(sacsi_text(n).unwrap()) == Some(n as u64),
{
    let text = sacsi_text(n).unwrap();
    let rest = n % 1_000_000;
    lemma_dotted_value_of_text(rest);
    assert(group_count(rest) <= 3) by {
        reveal_with_fuel(group_count, 3);
    }
    assert(text.skip(1) == dotted_text(rest));
}

} // verus!
