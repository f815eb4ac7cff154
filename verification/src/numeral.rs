//! Numerals: numbers written in a base from 2 to 64, most significant digit
//! first, with the first symbols of the alphabet for digits.

use vstd::prelude::*;
use crate::alphabet::{
    digit_symbol, get_friendly64_char, get_friendly64_char_index, is_digit_of, lemma_digit_symbol,
    lemma_symbol_digit, symbol_digit,
};
use crate::error::VegCodeError;
use crate::text::{join, push_char, string_from_chars_reversed};

verus! {

/// Whether every character of `s` is a digit of base `base`.
pub open spec fn is_numeral(s: Seq<char>, base: int) -> bool {
    forall|i: int| 0 <= i < s.len() ==> is_digit_of(#[trigger] s[i], base)
}

/// The number that the numeral `s` denotes in base `base`, most significant
/// digit first. The empty numeral denotes 0.
pub open spec fn numeral_value(s: Seq<char>, base: int) -> int
    decreases s.len(),
{
    if s.len() == 0 {
        0
    } else {
        numeral_value(s.drop_last(), base) * base + symbol_digit(s.last()).unwrap()
    }
}

/// The numeral of `n` in base `base`, most significant digit first and
/// without leading zeros. The numeral of 0 is empty.
pub open spec fn numeral(n: nat, base: nat) -> Seq<char>
    decreases n,
{
    if n == 0 || base < 2 {
        Seq::empty()
    } else {
        proof {
            assert(n / base < n) by (nonlinear_arith)
                requires
                    n > 0,
                    base >= 2,
            ;
        }
        numeral(n / base, base).push(digit_symbol((n % base) as int))
    }
}

/// The numeral of `n` in base `base`, with the single digit `0` for 0.
pub open spec fn numeral_or_zero(n: nat, base: nat) -> Seq<char> {
    if n == 0 {
        seq!['0']
    } else {
        numeral(n, base)
    }
}

/// `count` zero digits.
pub open spec fn zeros(count: nat) -> Seq<char> {
    Seq::new(count, |i: int| '0')
}

/// The numeral `s` with zero digits put in front of it until it is `width`
/// characters long. A numeral that is already as long or longer is left as
/// it is.
pub open spec fn zero_padded(s: Seq<char>, width: nat) -> Seq<char> {
    if s.len() < width {
        zeros((width - s.len()) as nat) + s
    } else {
        s
    }
}

/// `base` to the power `exponent`.
pub open spec fn power(base: nat, exponent: nat) -> nat
    decreases exponent,
{
    if exponent == 0 {
        1
    } else {
        base * power(base, (exponent - 1) as nat)
    }
}

/// What reading `s` as a numeral in base `base` gives: its number, or
/// `bad_symbol` where a character is no digit of the base, or
/// `MalformedInput` where the number is larger than any `u64`.
pub open spec fn read_numeral_result(s: Seq<char>, base: int, bad_symbol: VegCodeError) -> Result<
    u64,
    VegCodeError,
> {
    if !is_numeral(s, base) {
        Err(bad_symbol)
    } else if numeral_value(s, base) > u64::MAX {
        Err(VegCodeError::MalformedInput)
    } else {
        Ok(numeral_value(s, base) as u64)
    }
}

/// A numeral that ends in `c` denotes `base` times the number of what stands
/// before `c`, plus the digit of `c`.
pub proof fn lemma_numeral_value_push(s: Seq<char>, c: char, base: int)
    ensures
        numeral_value(s.push(c), base) == numeral_value(s, base) * base + symbol_digit(c).unwrap(),
{
    assert(s.push(c).drop_last() == s);
}

/// The digits of a numeral are digits of its base.
pub proof fn lemma_numeral_is_numeral(n: nat, base: nat)
    requires
        2 <= base <= 64,
    ensures
        is_numeral(numeral(n, base), base as int),
    decreases n,
{
    if n != 0 {
        assert(n / base < n) by (nonlinear_arith)
            requires
                n > 0,
                base >= 2,
        ;
        lemma_numeral_is_numeral(n / base, base);
        let d = (n % base) as int;
        assert(0 <= d < base) by (nonlinear_arith)
            requires
                d == (n % base) as int,
                base >= 2,
        ;
        lemma_digit_symbol(d);
        let s = numeral(n, base);
        assert forall|i: int| 0 <= i < s.len() implies is_digit_of(#[trigger] s[i], base as int) by {
            if i < s.len() - 1 {
                assert(s[i] == numeral(n / base, base)[i]);
            }
        }
    }
}

/// Reading the numeral of a number gives the number back.
pub proof fn lemma_numeral_value(n: nat, base: nat)
    requires
        2 <= base <= 64,
    ensures
        numeral_value(numeral(n, base), base as int) == n,
    decreases n,
{
    if n != 0 {
        assert(n / base < n) by (nonlinear_arith)
            requires
                n > 0,
                base >= 2,
        ;
        lemma_numeral_value(n / base, base);
        let d = (n % base) as int;
        assert(0 <= d < base && (n / base) * base + d == n) by (nonlinear_arith)
            requires
                d == (n % base) as int,
                base >= 2,
        ;
        lemma_digit_symbol(d);
        let s = numeral(n, base);
        assert(s.drop_last() == numeral(n / base, base));
        assert(s.last() == digit_symbol(d));
    }
}

/// The numeral of a positive number starts with a digit other than zero.
pub proof fn lemma_numeral_no_leading_zero(n: nat, base: nat)
    requires
        2 <= base <= 64,
        n > 0,
    ensures
        numeral(n, base).len() > 0,
        numeral(n, base)[0] != '0',
    decreases n,
{
    let q = n / base;
    let d = (n % base) as int;
    assert(q < n && 0 <= d < base && q * base + d == n) by (nonlinear_arith)
        requires
            n > 0,
            base >= 2,
            q == n / base,
            d == (n % base) as int,
    ;
    if q == 0 {
        assert(q * base == 0) by (nonlinear_arith)
            requires
                q == 0,
        ;
        lemma_digit_symbol(d);
        assert(numeral(n, base)[0] == digit_symbol(d));
    } else {
        lemma_numeral_no_leading_zero(q, base);
        assert(numeral(n, base)[0] == numeral(q, base)[0]);
    }
}

/// A numeral denotes a number that is not negative, and at least the number
/// that any of its prefixes denotes.
pub proof fn lemma_numeral_value_prefix(s: Seq<char>, base: int, len: int)
    requires
        1 <= base,
        is_numeral(s, base),
        0 <= len <= s.len(),
    ensures
        0 <= numeral_value(s.take(len), base) <= numeral_value(s, base),
    decreases s.len(),
{
    if s.len() == 0 {
        assert(s.take(len) == s);
    } else {
        let front = s.drop_last();
        let d = symbol_digit(s.last()).unwrap();
        assert(is_digit_of(s[s.len() - 1], base));
        assert forall|i: int| 0 <= i < front.len() implies is_digit_of(#[trigger] front[i], base) by {
            assert(front[i] == s[i]);
        }
        lemma_numeral_value_prefix(front, base, front.len() as int);
        assert(front.take(front.len() as int) == front);
        let v = numeral_value(front, base);
        assert(v * base >= v) by (nonlinear_arith)
            requires
                v >= 0,
                base >= 1,
        ;
        if len == s.len() {
            assert(s.take(len) == s);
        } else {
            lemma_numeral_value_prefix(front, base, len);
            assert(s.take(len) == front.take(len));
        }
    }
}

/// A numeral made of zero digits denotes 0.
pub proof fn lemma_zeros_value(count: nat, base: int)
    ensures
        numeral_value(zeros(count), base) == 0,
    decreases count,
{
    if count > 0 {
        lemma_zeros_value((count - 1) as nat, base);
        assert(zeros(count).drop_last() == zeros((count - 1) as nat));
        assert(zeros(count).last() == '0');
        assert(0 * base == 0);
    }
}

/// Zero digits in front of a numeral do not change the number it denotes.
pub proof fn lemma_zero_padded_value(s: Seq<char>, base: int, width: nat)
    ensures
        numeral_value(zero_padded(s, width), base) == numeral_value(s, base),
    decreases s.len(),
{
    if s.len() < width {
        let k = (width - s.len()) as nat;
        if s.len() == 0 {
            assert(zero_padded(s, width) == zeros(k));
            lemma_zeros_value(k, base);
        } else {
            let front = s.drop_last();
            lemma_zero_padded_value(front, base, (width - 1) as nat);
            assert(zero_padded(front, (width - 1) as nat) == zeros(k) + front);
            assert((zeros(k) + s).drop_last() == zeros(k) + front);
            assert((zeros(k) + s).last() == s.last());
        }
    }
}

/// Zero digits in front of a numeral leave it a numeral.
pub proof fn lemma_zero_padded_is_numeral(s: Seq<char>, base: int, width: nat)
    requires
        1 <= base,
        is_numeral(s, base),
    ensures
        is_numeral(zero_padded(s, width), base),
{
    let padded = zero_padded(s, width);
    if s.len() < width {
        let count = (width - s.len()) as nat;
        assert forall|i: int| 0 <= i < padded.len() implies is_digit_of(#[trigger] padded[i], base) by {
            if i < count {
                assert(padded[i] == '0');
            } else {
                assert(padded[i] == s[i - count]);
            }
        }
    }
}

/// Writing the number of a numeral gives the numeral back, but for the zero
/// digits it began with.
pub proof fn lemma_numeral_of_value(s: Seq<char>, base: nat)
    requires
        2 <= base <= 64,
        is_numeral(s, base as int),
    ensures
        0 <= numeral_value(s, base as int),
        numeral(numeral_value(s, base as int) as nat, base).len() <= s.len(),
        zero_padded(numeral(numeral_value(s, base as int) as nat, base), s.len()) == s,
    decreases s.len(),
{
    lemma_numeral_value_prefix(s, base as int, 0);
    if s.len() == 0 {
        assert(zero_padded(Seq::<char>::empty(), 0) == s);
    } else {
        let front = s.drop_last();
        let width = front.len();
        assert(is_digit_of(s[s.len() - 1], base as int));
        assert forall|i: int| 0 <= i < front.len() implies is_digit_of(
            #[trigger] front[i],
            base as int,
        ) by {
            assert(front[i] == s[i]);
        }
        lemma_numeral_of_value(front, base);
        let high = numeral_value(front, base as int);
        let d = symbol_digit(s.last()).unwrap();
        let v = numeral_value(s, base as int);
        lemma_symbol_digit(s.last());
        assert(v / (base as int) == high && v % (base as int) == d) by (nonlinear_arith)
            requires
                v == high * base + d,
                0 <= d < base,
                0 <= high,
        ;
        let short = numeral(high as nat, base);
        if v == 0 {
            assert(high == 0) by (nonlinear_arith)
                requires
                    0 == high * base + d,
                    0 <= d,
                    0 <= high,
                    base >= 2,
            ;
            assert(zeros(s.len()) == zeros(width).push('0'));
            assert(zero_padded(short, width) == zeros(width));
            assert(front.push(s.last()) == s);
        } else {
            assert(numeral(v as nat, base) == short.push(s.last()));
            if short.len() < width {
                assert(zeros((width - short.len()) as nat) + short.push(s.last()) == (zeros(
                    (width - short.len()) as nat,
                ) + short).push(s.last()));
            }
            assert(front.push(s.last()) == s);
        }
    }
}

/// A power of a positive number is positive.
pub proof fn lemma_power_positive(base: nat, exponent: nat)
    requires
        base > 0,
    ensures
        power(base, exponent) > 0,
    decreases exponent,
{
    if exponent > 0 {
        lemma_power_positive(base, (exponent - 1) as nat);
        assert(base * power(base, (exponent - 1) as nat) > 0) by (nonlinear_arith)
            requires
                base > 0,
                power(base, (exponent - 1) as nat) > 0,
        ;
    }
}

/// A numeral has at most `width` digits exactly when its number is below
/// the base to the power `width`.
pub proof fn lemma_numeral_len(n: nat, base: nat, width: nat)
    requires
        2 <= base <= 64,
    ensures
        numeral(n, base).len() <= width <==> n < power(base, width),
    decreases width,
{
    if width == 0 {
        if n > 0 {
            lemma_numeral_no_leading_zero(n, base);
        }
    } else {
        let rest = power(base, (width - 1) as nat);
        if n == 0 {
            lemma_power_positive(base, width);
        } else {
            lemma_numeral_len(n / base, base, (width - 1) as nat);
            assert(n / base < rest <==> n < base * rest) by (nonlinear_arith)
                requires
                    base >= 2,
            ;
        }
    }
}

/// What reading the numeral of a number gives is the number.
pub proof fn lemma_read_numeral(n: u64, base: nat, width: nat, bad_symbol: VegCodeError)
    requires
        2 <= base <= 64,
    ensures
        read_numeral_result(numeral(n as nat, base), base as int, bad_symbol) == Ok::<
            u64,
            VegCodeError,
        >(n),
        read_numeral_result(zero_padded(numeral(n as nat, base), width), base as int, bad_symbol)
            == Ok::<u64, VegCodeError>(n),
{
    lemma_numeral_is_numeral(n as nat, base);
    lemma_numeral_value(n as nat, base);
    lemma_zero_padded_is_numeral(numeral(n as nat, base), base as int, width);
    lemma_zero_padded_value(numeral(n as nat, base), base as int, width);
}

/// What reading the numeral of a number gives is the number, also where the
/// digit `0` is written for 0.
pub proof fn lemma_read_numeral_or_zero(n: u64, base: nat, bad_symbol: VegCodeError)
    requires
        2 <= base <= 64,
    ensures
        read_numeral_result(numeral_or_zero(n as nat, base), base as int, bad_symbol) == Ok::<
            u64,
            VegCodeError,
        >(n),
{
    if n == 0 {
        lemma_numeral_value_push(Seq::<char>::empty(), '0', base as int);
        assert(seq!['0'] == Seq::<char>::empty().push('0'));
    } else {
        lemma_read_numeral(n, base, 0, bad_symbol);
    }
}

/// Writes `n` as a numeral in base `base`.
pub fn to_numeral(n: u64, base: u64) -> (s: String)
    requires
        2 <= base <= 64,
    ensures
        s@ == numeral(n as nat, base as nat),
{
    let mut digits: Vec<char> = Vec::new();
    let mut num: u64 = n;
    while num > 0
        invariant
            2 <= base <= 64,
            numeral(n as nat, base as nat) == numeral(num as nat, base as nat) + digits@.reverse(),
        decreases num,
    {
        let ghost before = digits@;
        let d: u64 = num % base;
        digits.push(get_friendly64_char(d));
        proof {
            assert(digits@.reverse() == seq![digit_symbol(d as int)] + before.reverse());
            assert(numeral(num as nat, base as nat) == numeral((num / base) as nat, base as nat).push(
                digit_symbol(d as int),
            ));
        }
        num = num / base;
    }
    string_from_chars_reversed(&digits)
}

/// Whether the characters of `v` are all digits of base `base`.
fn has_only_digits(v: &Vec<char>, base: u64) -> (ok: bool)
    ensures
        ok == is_numeral(v@, base as int),
{
    let mut i: usize = 0;
    while i < v.len()
        invariant
            i <= v.len(),
            is_numeral(v@.take(i as int), base as int),
        decreases v.len() - i,
    {
        match get_friendly64_char_index(v[i]) {
            Ok(d) => {
                if d >= base {
                    assert(!is_digit_of(v@[i as int], base as int));
                    return false;
                }
            },
            Err(_) => {
                assert(!is_digit_of(v@[i as int], base as int));
                return false;
            },
        }
        proof {
            let next = v@.take(i + 1);
            assert forall|j: int| 0 <= j < next.len() implies is_digit_of(
                #[trigger] next[j],
                base as int,
            ) by {
                if j < i {
                    assert(next[j] == v@.take(i as int)[j]);
                }
            }
        }
        i = i + 1;
    }
    assert(v@.take(i as int) == v@);
    true
}

/// The number that a numeral denotes, or `None` where it is larger than any
/// `u64`.
fn read_numeral(v: &Vec<char>, base: u64) -> (r: Option<u64>)
    requires
        2 <= base <= 64,
        is_numeral(v@, base as int),
    ensures
        match r {
            Some(n) => n == numeral_value(v@, base as int),
            None => numeral_value(v@, base as int) > u64::MAX,
        },
{
    let mut acc: u64 = 0;
    let mut i: usize = 0;
    while i < v.len()
        invariant
            2 <= base <= 64,
            is_numeral(v@, base as int),
            i <= v.len(),
            acc == numeral_value(v@.take(i as int), base as int),
        decreases v.len() - i,
    {
        let ghost next = v@.take(i + 1);
        proof {
            assert(next.drop_last() == v@.take(i as int));
            assert(next.last() == v@[i as int]);
            assert(is_digit_of(v@[i as int], base as int));
            lemma_numeral_value_prefix(v@, base as int, i + 1);
        }
        let d: u64 = match get_friendly64_char_index(v[i]) {
            Ok(d) => d,
            Err(_) => 0,
        };
        let shifted: u64 = match acc.checked_mul(base) {
            Some(x) => x,
            None => {
                return None;
            },
        };
        acc = match shifted.checked_add(d) {
            Some(x) => x,
            None => {
                return None;
            },
        };
        i = i + 1;
    }
    assert(v@.take(i as int) == v@);
    Some(acc)
}

/// Reads the characters of `v` as a numeral in base `base`.
pub fn parse_numeral(v: &Vec<char>, base: u64, bad_symbol: VegCodeError) -> (r: Result<
    u64,
    VegCodeError,
>)
    requires
        2 <= base <= 64,
    ensures
        r == read_numeral_result(v@, base as int, bad_symbol),
{
    if !has_only_digits(v, base) {
        return Err(bad_symbol);
    }
    proof {
        lemma_numeral_value_prefix(v@, base as int, 0);
    }
    match read_numeral(v, base) {
        Some(n) => Ok(n),
        None => Err(VegCodeError::MalformedInput),
    }
}

/// Puts zero digits in front of `s` until it is `width` characters long.
pub fn zero_pad(s: &str, width: usize) -> (r: String)
    ensures
        r@ == zero_padded(s@, width as nat),
{
    let len = s.unicode_len();
    let mut front = String::new();
    let mut i: usize = len;
    while i < width
        invariant
            len <= i,
            len < width ==> i <= width,
            len >= width ==> i == len,
            front@ == zeros((i - len) as nat),
        decreases width - i,
    {
        let ghost before = front@;
        push_char(&mut front, '0');
        assert(before.push('0') == zeros((i + 1 - len) as nat));
        i = i + 1;
    }
    let r = join(front.as_str(), s);
    proof {
        if len < width {
            assert(i == width);
        } else {
            assert(i == len);
            assert(zeros(0) + s@ == s@);
        }
    }
    r
}

} // verus!
