//! The alphabet of 64 symbols that all numerals are written in.
//!
//! The symbols are the digits `0-9`, then the letters `a-z`, then `A-Z`, then
//! `-` and `_`. Base 62 uses all but the last two of them, the friendly base
//! 64 all of them: it is called friendly because none of its symbols needs
//! care in an address or in the name of a file.

use vstd::prelude::*;
use crate::error::VegCodeError;

verus! {

/// The alphabet, written out: the symbol of the digit `d` stands at
/// position `d`.
pub open spec fn alphabet() -> Seq<char> {
    "0123456789abcdefghijklmnopqrstuvwxyzABCDEFGHIJKLMNOPQRSTUVWXYZ-_"@
}

/// The symbol that stands for the digit `d`, for `0 <= d < 64`.
pub open spec fn digit_symbol(d: int) -> char {
    if d < 10 {
        ('0' as int + d) as char
    } else if d < 36 {
        ('a' as int + (d - 10)) as char
    } else if d < 62 {
        ('A' as int + (d - 36)) as char
    } else if d == 62 {
        '-'
    } else {
        '_'
    }
}

/// The digit that the character `c` stands for, if it is a symbol of the
/// alphabet.
pub open spec fn symbol_digit(c: char) -> Option<int> {
    if '0' <= c <= '9' {
        Some(c as int - '0' as int)
    } else if 'a' <= c <= 'z' {
        Some(c as int - 'a' as int + 10)
    } else if 'A' <= c <= 'Z' {
        Some(c as int - 'A' as int + 36)
    } else if c == '-' {
        Some(62)
    } else if c == '_' {
        Some(63)
    } else {
        None
    }
}

/// Whether `c` is one of the first `base` symbols of the alphabet.
pub open spec fn is_digit_of(c: char, base: int) -> bool {
    symbol_digit(c) matches Some(d) && d < base
}

/// The symbol of a digit is the character at the digit's position in the
/// alphabet.
pub proof fn lemma_alphabet(d: int)
    requires
        0 <= d < 64,
    ensures
        alphabet().len() == 64,
        alphabet()[d] == digit_symbol(d),
{
    reveal_strlit("0123456789abcdefghijklmnopqrstuvwxyzABCDEFGHIJKLMNOPQRSTUVWXYZ-_");
}

/// Every digit below 64 has a symbol, and the symbol stands for that digit
/// alone.
pub proof fn lemma_digit_symbol(d: int)
    requires
        0 <= d < 64,
    ensures
        symbol_digit(digit_symbol(d)) == Some(d),
{
}

/// A symbol is the symbol of the digit it stands for.
pub proof fn lemma_symbol_digit(c: char)
    requires
        symbol_digit(c) is Some,
    ensures
        0 <= symbol_digit(c).unwrap() < 64,
        digit_symbol(symbol_digit(c).unwrap()) == c,
{
}

/// The symbol of a digit of the friendly base 64.
pub fn get_friendly64_char(num: u64) -> (c: char)
    requires
        num < 64,
    ensures
        c == digit_symbol(num as int),
        c == alphabet()[num as int],
{
    proof {
        lemma_alphabet(num as int);
    }
    let d: u8 = num as u8;
    if d < 10 {
        (48u8 + d) as char
    } else if d < 36 {
        (97u8 + (d - 10)) as char
    } else if d < 62 {
        (65u8 + (d - 36)) as char
    } else if d == 62 {
        '-'
    } else {
        '_'
    }
}

/// The symbol of a digit of base 62.
pub fn get_base62_char(num: u64) -> (c: char)
    requires
        num < 62,
    ensures
        c == digit_symbol(num as int),
        c == alphabet()[num as int],
{
    get_friendly64_char(num)
}

/// The digit of a symbol of the friendly base 64; `InvalidSymbol` for any
/// other character.
pub fn get_friendly64_char_index(character: char) -> (r: Result<u64, VegCodeError>)
    ensures
        match r {
            Ok(d) => symbol_digit(character) == Some(d as int),
            Err(e) => e == VegCodeError::InvalidSymbol && symbol_digit(character) is None,
        },
{
    let c: u32 = character as u32;
    if 48 <= c && c <= 57 {
        Ok((c - 48) as u64)
    } else if 97 <= c && c <= 122 {
        Ok((c - 97 + 10) as u64)
    } else if 65 <= c && c <= 90 {
        Ok((c - 65 + 36) as u64)
    } else if c == 45 {
        Ok(62)
    } else if c == 95 {
        Ok(63)
    } else {
        Err(VegCodeError::InvalidSymbol)
    }
}

/// The digit of a symbol of base 62; `InvalidSymbol` for any other
/// character.
pub fn get_base62_char_index(character: char) -> (r: Result<u64, VegCodeError>)
    ensures
        match r {
            Ok(d) => symbol_digit(character) == Some(d as int) && d < 62,
            Err(e) => e == VegCodeError::InvalidSymbol && !is_digit_of(character, 62),
        },
{
    match get_friendly64_char_index(character) {
        Ok(d) => if d < 62 {
            Ok(d)
        } else {
            Err(VegCodeError::InvalidSymbol)
        },
        Err(e) => Err(e),
    }
}

} // verus!
