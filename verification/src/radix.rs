//! Numbers in base 62, in the friendly base 64 and in base 2.
//!
//! Base 62 writes the number 0 as the empty string, the other two write it
//! as `0`.

use vstd::prelude::*;
use crate::alphabet::{
    digit_symbol, get_friendly64_char_index, is_digit_of, lemma_digit_symbol, symbol_digit,
};
use crate::error::VegCodeError;
use crate::numeral::{
    is_numeral, lemma_numeral_len, lemma_read_numeral, lemma_read_numeral_or_zero, numeral,
    numeral_or_zero, parse_numeral, power, read_numeral_result, to_numeral, zero_pad, zero_padded,
    zeros,
};
use crate::text::{push_char, set_char_for_string, string_chars};

verus! {

/// The numeral of `num` in base 62. The numeral of 0 is the empty string.
pub fn base10_to_base62(num: u64) -> (s: String)
    ensures
        s@ == numeral(num as nat, 62),
{
    to_numeral(num, 62)
}

/// The number that the base 62 numeral `string_base62` denotes.
/// `InvalidSymbol` where a character is outside the alphabet, else
/// `MalformedInput` where the number is larger than any `u64`.
pub fn base62_to_base10(string_base62: String) -> (r: Result<u64, VegCodeError>)
    ensures
        r == read_numeral_result(string_base62@, 62, VegCodeError::InvalidSymbol),
{
    let v = string_chars(string_base62.as_str());
    parse_numeral(&v, 62, VegCodeError::InvalidSymbol)
}

/// The numeral of `num` in the friendly base 64. The numeral of 0 is `"0"`.
pub fn base10_to_friendly64(num: u64) -> (s: String)
    ensures
        s@ == numeral_or_zero(num as nat, 64),
{
    if num == 0 {
        to_numeral_zero()
    } else {
        to_numeral(num, 64)
    }
}

/// The number that the friendly base 64 numeral `string_friendly64` denotes.
/// `InvalidSymbol` where a character is outside the alphabet, else
/// `MalformedInput` where the number is larger than any `u64`.
pub fn friendly64_to_base10(string_friendly64: String) -> (r: Result<u64, VegCodeError>)
    ensures
        r == read_numeral_result(string_friendly64@, 64, VegCodeError::InvalidSymbol),
{
    let v = string_chars(string_friendly64.as_str());
    parse_numeral(&v, 64, VegCodeError::InvalidSymbol)
}

/// The numeral of `num` in base 2. The numeral of 0 is `"0"`.
pub fn base10_to_base2(num: u64) -> (s: String)
    ensures
        s@ == numeral_or_zero(num as nat, 2),
{
    if num == 0 {
        to_numeral_zero()
    } else {
        to_numeral(num, 2)
    }
}

/// The number that the binary numeral `string_binary` denotes.
/// `MalformedInput` where a character is neither `0` nor `1`, or where the
/// number is larger than any `u64`.
pub fn base2_to_base10(string_binary: String) -> (r: Result<u64, VegCodeError>)
    ensures
        r == read_numeral_result(string_binary@, 2, VegCodeError::MalformedInput),
{
    let v = string_chars(string_binary.as_str());
    parse_numeral(&v, 2, VegCodeError::MalformedInput)
}

/// The string `"0"`.
fn to_numeral_zero() -> (s: String)
    ensures
        s@ == seq!['0'],
{
    let mut s = String::new();
    push_char(&mut s, '0');
    s
}

/// The friendly base 64 numeral of the number that the binary numeral
/// `string_binary` denotes.
pub fn base2_to_friendly64(string_binary: String) -> (r: Result<String, VegCodeError>)
    ensures
        match read_numeral_result(string_binary@, 2, VegCodeError::MalformedInput) {
            Ok(n) => r is Ok && r.unwrap()@ == numeral_or_zero(n as nat, 64),
            Err(e) => r == Err::<String, VegCodeError>(e),
        },
{
    match base2_to_base10(string_binary) {
        Ok(n) => Ok(base10_to_friendly64(n)),
        Err(e) => Err(e),
    }
}

/// Reading the base 62 numeral of a number gives the number back.
pub proof fn lemma_base62_round_trip(n: u64)
    ensures
        read_numeral_result(numeral(n as nat, 62), 62, VegCodeError::InvalidSymbol) == Ok::<
            u64,
            VegCodeError,
        >(n),
{
    lemma_read_numeral(n, 62, 0, VegCodeError::InvalidSymbol);
}

/// Reading the friendly base 64 numeral of a number gives the number back.
pub proof fn lemma_friendly64_round_trip(n: u64)
    ensures
        read_numeral_result(numeral_or_zero(n as nat, 64), 64, VegCodeError::InvalidSymbol) == Ok::<
            u64,
            VegCodeError,
        >(n),
{
    lemma_read_numeral_or_zero(n, 64, VegCodeError::InvalidSymbol);
}

/// Reading the binary numeral of a number gives the number back.
pub proof fn lemma_binary_round_trip(n: u64)
    ensures
        read_numeral_result(numeral_or_zero(n as nat, 2), 2, VegCodeError::MalformedInput) == Ok::<
            u64,
            VegCodeError,
        >(n),
{
    lemma_read_numeral_or_zero(n, 2, VegCodeError::MalformedInput);
}

/// The digit `1` for a set bit and the digit `0` for a cleared one.
pub open spec fn bit_symbol(bit: bool) -> char {
    if bit {
        '1'
    } else {
        '0'
    }
}

/// Writes the digit of `bit` at position `index` of the binary numeral
/// `string`.
pub fn set_binary_string_bit(string: &mut String, index: usize, bit: bool)
    requires
        index < old(string)@.len(),
    ensures
        final(string)@ == old(string)@.update(index as int, bit_symbol(bit)),
{
    match bit {
        true => set_char_for_string(string, index, '1'),
        false => set_char_for_string(string, index, '0'),
    }
}

/// The six binary digits of the digit that the symbol `c` stands for.
pub open spec fn symbol_bits(c: char) -> Seq<char> {
    zero_padded(numeral_or_zero(symbol_digit(c).unwrap() as nat, 2), 6)
}

/// The binary numeral that spells out `s`, a numeral of the friendly base
/// 64: six binary digits for each symbol.
pub open spec fn binary_of_friendly64(s: Seq<char>) -> Seq<char>
    decreases s.len(),
{
    if s.len() == 0 {
        Seq::empty()
    } else {
        binary_of_friendly64(s.drop_last()) + symbol_bits(s.last())
    }
}

/// The six binary digits of a symbol are the binary numeral of its digit,
/// with zero digits in front.
pub proof fn lemma_symbol_bits(d: nat)
    requires
        d < 64,
    ensures
        symbol_bits(digit_symbol(d as int)) == zero_padded(numeral(d, 2), 6),
{
    lemma_digit_symbol(d as int);
    if d == 0 {
        assert(zeros(5) + seq!['0'] == zeros(6) + Seq::<char>::empty());
    }
}

/// A symbol is spelled out in exactly six binary digits.
pub proof fn lemma_symbol_bits_len(c: char)
    requires
        symbol_digit(c) is Some,
    ensures
        symbol_bits(c).len() == 6,
{
    let d = symbol_digit(c).unwrap() as nat;
    lemma_numeral_len(d, 2, 6);
    assert(power(2, 6) == 64) by {
        reveal_with_fuel(power, 7);
    }
}

/// Spells out a numeral of the friendly base 64 in binary, six digits for
/// each symbol. `InvalidSymbol` where a character is outside the alphabet.
pub fn friendly64_to_binary_string(string_friendly64: String) -> (r: Result<String, VegCodeError>)
    ensures
        match r {
            Ok(bits) => is_numeral(string_friendly64@, 64) && bits@ == binary_of_friendly64(
                string_friendly64@,
            ),
            Err(e) => e == VegCodeError::InvalidSymbol && !is_numeral(string_friendly64@, 64),
        },
{
    let v = string_chars(string_friendly64.as_str());
    let mut binary_string = String::new();
    let mut i: usize = 0;
    while i < v.len()
        invariant
            v@ == string_friendly64@,
            i <= v.len(),
            is_numeral(v@.take(i as int), 64),
            binary_string@ == binary_of_friendly64(v@.take(i as int)),
        decreases v.len() - i,
    {
        let num = match get_friendly64_char_index(v[i]) {
            Ok(d) => d,
            Err(e) => {
                assert(!is_digit_of(v@[i as int], 64));
                return Err(e);
            },
        };
        let binary = zero_pad(base10_to_base2(num).as_str(), 6);
        proof {
            let next = v@.take(i + 1);
            assert(next.drop_last() == v@.take(i as int));
            assert(next.last() == v@[i as int]);
            assert forall|j: int| 0 <= j < next.len() implies is_digit_of(#[trigger] next[j], 64) by {
                if j < i {
                    assert(next[j] == v@.take(i as int)[j]);
                }
            }
        }
        binary_string.append(binary.as_str());
        i = i + 1;
    }
    assert(v@.take(i as int) == v@);
    Ok(binary_string)
}

} // verus!
