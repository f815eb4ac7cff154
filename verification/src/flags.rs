//! The six flags of a code, packed into one symbol of the friendly base 64.

use vstd::prelude::*;
use crate::alphabet::{digit_symbol, is_digit_of, lemma_digit_symbol, symbol_digit};
use crate::error::VegCodeError;
use crate::numeral::{
    is_numeral, lemma_numeral_of_value, lemma_numeral_value_push, numeral, numeral_value,
};
use crate::radix::{
    base10_to_friendly64, binary_of_friendly64, bit_symbol, friendly64_to_binary_string,
    lemma_symbol_bits, lemma_symbol_bits_len, symbol_bits,
};
use crate::text::{push_char, string_chars};

verus! {

/// The flags of a code, from the most significant bit of the packed field to
/// the least significant one.
#[derive(Clone, Copy, Debug, PartialEq, Eq, Structural)]
pub struct VegCodeFlags {
    /// The record has a version.
    pub is_versioned: bool,
    /// The version field is four characters long, not three.
    pub version_is_4_chars: bool,
    /// The identifier field is five characters long, not four.
    pub sacsi_is_5_chars: bool,
    /// The archive flag: the document is archived.
    pub is_archived: bool,
    /// The draft flag: the document is a draft.
    pub is_draft: bool,
    /// The author flag of the document.
    pub is_author: bool,
}

/// 1 for a set bit and 0 for a cleared one.
pub open spec fn bit_number(bit: bool) -> nat {
    if bit {
        1
    } else {
        0
    }
}

impl VegCodeFlags {
    /// The six binary digits of the flags, most significant first.
    pub open spec fn bits(self) -> Seq<char> {
        seq![
            bit_symbol(self.is_versioned),
            bit_symbol(self.version_is_4_chars),
            bit_symbol(self.sacsi_is_5_chars),
            bit_symbol(self.is_archived),
            bit_symbol(self.is_draft),
            bit_symbol(self.is_author),
        ]
    }

    /// The number below 64 that the six bits make.
    pub open spec fn number(self) -> nat {
        32 * bit_number(self.is_versioned) + 16 * bit_number(self.version_is_4_chars) + 8
            * bit_number(self.sacsi_is_5_chars) + 4 * bit_number(self.is_archived) + 2
            * bit_number(self.is_draft) + bit_number(self.is_author)
    }

    /// The symbol that the flags are packed into.
    pub open spec fn symbol(self) -> char {
        digit_symbol(self.number() as int)
    }

    /// The flags that six binary digits spell, most significant first.
    pub open spec fn of_bits(bits: Seq<char>) -> VegCodeFlags {
        VegCodeFlags {
            is_versioned: bits[0] == '1',
            version_is_4_chars: bits[1] == '1',
            sacsi_is_5_chars: bits[2] == '1',
            is_archived: bits[3] == '1',
            is_draft: bits[4] == '1',
            is_author: bits[5] == '1',
        }
    }

    /// The flags packed into the symbol `c`, if `c` is a symbol of the
    /// friendly base 64.
    pub open spec fn of_symbol(c: char) -> Option<VegCodeFlags> {
        if symbol_digit(c) is Some {
            Some(Self::of_bits(symbol_bits(c)))
        } else {
            None
        }
    }

    /// The six bits of the flags are the binary numeral of their number.
    pub proof fn lemma_bits_value(self)
        ensures
            is_numeral(self.bits(), 2),
            numeral_value(self.bits(), 2) == self.number(),
    {
        let b0 = bit_symbol(self.is_versioned);
        let b1 = bit_symbol(self.version_is_4_chars);
        let b2 = bit_symbol(self.sacsi_is_5_chars);
        let b3 = bit_symbol(self.is_archived);
        let b4 = bit_symbol(self.is_draft);
        let b5 = bit_symbol(self.is_author);
        let s0 = Seq::<char>::empty();
        lemma_numeral_value_push(s0, b0, 2);
        lemma_numeral_value_push(s0.push(b0), b1, 2);
        lemma_numeral_value_push(s0.push(b0).push(b1), b2, 2);
        lemma_numeral_value_push(s0.push(b0).push(b1).push(b2), b3, 2);
        lemma_numeral_value_push(s0.push(b0).push(b1).push(b2).push(b3), b4, 2);
        lemma_numeral_value_push(s0.push(b0).push(b1).push(b2).push(b3).push(b4), b5, 2);
        assert(self.bits() == s0.push(b0).push(b1).push(b2).push(b3).push(b4).push(b5));
    }

    /// Unpacking the symbol that flags were packed into gives the flags
    /// back, for all 64 combinations of them.
    pub proof fn lemma_pack_unpack(self)
        ensures
            Self::of_symbol(self.symbol()) == Some(self),
    {
        let bits = self.bits();
        let number = self.number();
        self.lemma_bits_value();
        lemma_digit_symbol(number as int);
        lemma_numeral_of_value(bits, 2);
        lemma_symbol_bits(number);
        assert(Self::of_bits(bits) == self);
    }
}

/// Packs the flags into one symbol of the friendly base 64.
pub fn pack_flags(flags: VegCodeFlags) -> (symbol: String)
    ensures
        symbol@ == seq![flags.symbol()],
{
    let mut number: u64 = 0;
    if flags.is_versioned {
        number = number + 32;
    }
    if flags.version_is_4_chars {
        number = number + 16;
    }
    if flags.sacsi_is_5_chars {
        number = number + 8;
    }
    if flags.is_archived {
        number = number + 4;
    }
    if flags.is_draft {
        number = number + 2;
    }
    if flags.is_author {
        number = number + 1;
    }
    let symbol = base10_to_friendly64(number);
    proof {
        if number > 0 {
            assert(number / 64 == 0);
            assert(numeral(0, 64) == Seq::<char>::empty());
            assert(numeral(number as nat, 64) == numeral(0, 64).push(
                digit_symbol((number % 64) as int),
            ));
        }
    }
    symbol
}

/// Unpacks the flags from a symbol of the friendly base 64: spells the
/// symbol out as six binary digits and reads one flag from each.
/// `InvalidSymbol` where `symbol` is outside the alphabet.
pub fn unpack_flags(symbol: char) -> (r: Result<VegCodeFlags, VegCodeError>)
    ensures
        match r {
            Ok(flags) => VegCodeFlags::of_symbol(symbol) == Some(flags),
            Err(e) => e == VegCodeError::InvalidSymbol && VegCodeFlags::of_symbol(symbol) is None,
        },
{
    let mut flags_base64 = String::new();
    push_char(&mut flags_base64, symbol);
    let ghost text = flags_base64@;
    assert(text.drop_last() == Seq::<char>::empty());
    let binding = match friendly64_to_binary_string(flags_base64) {
        Ok(bits) => bits,
        Err(e) => {
            assert(!is_digit_of(text[0], 64));
            return Err(e);
        },
    };
    proof {
        assert(is_digit_of(text[0], 64));
        assert(text.last() == symbol);
        assert(binary_of_friendly64(text.drop_last()) == Seq::<char>::empty());
        assert(binary_of_friendly64(text) == Seq::<char>::empty() + symbol_bits(
            symbol,
        ));
        lemma_symbol_bits_len(symbol);
    }
    let flags = string_chars(binding.as_str());
    Ok(
        VegCodeFlags {
            is_versioned: flags[0] == '1',
            version_is_4_chars: flags[1] == '1',
            sacsi_is_5_chars: flags[2] == '1',
            is_archived: flags[3] == '1',
            is_draft: flags[4] == '1',
            is_author: flags[5] == '1',
        },
    )
}

} // verus!
