//! Dotted decimals: numbers written as groups of decimal digits with dots
//! between them, as versions are.
//!
//! A dotted decimal such as `04.03.00` is read in base 100, one digit for
//! each group: `4 * 10000 + 3 * 100 + 0`. It is written with two decimal
//! digits for each group.

use vstd::prelude::*;
use crate::alphabet::{
    digit_symbol, get_base62_char, get_friendly64_char_index, is_digit_of, lemma_symbol_digit,
};
use crate::error::VegCodeError;
use crate::numeral::{
    is_numeral, lemma_numeral_value_prefix, lemma_numeral_value_push, numeral_value,
    read_numeral_result,
};
use crate::radix::base62_to_base10;
use crate::text::{string_chars, string_from_chars_reversed};

verus! {

/// The groups of characters that the dots of `s` separate. A string without
/// a dot is one group; the empty string is one empty group.
pub open spec fn dotted_groups(s: Seq<char>) -> Seq<Seq<char>>
    decreases s.len(),
{
    if s.len() == 0 {
        seq![Seq::empty()]
    } else {
        let groups = dotted_groups(s.drop_last());
        if s.last() == '.' {
            groups.push(Seq::empty())
        } else {
            groups.update(groups.len() - 1, groups.last().push(s.last()))
        }
    }
}

/// Whether `group` is one or more decimal digits.
pub open spec fn is_decimal_group(group: Seq<char>) -> bool {
    group.len() > 0 && is_numeral(group, 10)
}

/// Whether every one of `groups` is one or more decimal digits.
pub open spec fn are_decimal_groups(groups: Seq<Seq<char>>) -> bool {
    forall|i: int| 0 <= i < groups.len() ==> is_decimal_group(#[trigger] groups[i])
}

/// The number that `groups` denote in base 100, first group first.
pub open spec fn groups_value(groups: Seq<Seq<char>>) -> int
    decreases groups.len(),
{
    if groups.len() == 0 {
        0
    } else {
        groups_value(groups.drop_last()) * 100 + numeral_value(groups.last(), 10)
    }
}

/// Whether `s` is made of groups of decimal digits with a dot between each
/// two.
pub open spec fn is_dotted_decimal(s: Seq<char>) -> bool {
    are_decimal_groups(dotted_groups(s))
}

/// The number that the dotted decimal `s` stands for.
pub open spec fn dotted_value(s: Seq<char>) -> int {
    groups_value(dotted_groups(s))
}

/// What reading `s` as a dotted decimal gives: its number, or nothing where
/// `s` is no dotted decimal or the number is larger than any `u64`.
pub open spec fn dotted_number(s: Seq<char>) -> Option<u64> {
    if is_dotted_decimal(s) && dotted_value(s) <= u64::MAX {
        Some(dotted_value(s) as u64)
    } else {
        None
    }
}

/// The two decimal digits of `n`, for `n < 100`.
pub open spec fn two_digits(n: nat) -> Seq<char> {
    seq![digit_symbol((n / 10) as int), digit_symbol((n % 10) as int)]
}

/// The dotted decimal of `n`: its digits in base 100, each written as two
/// decimal digits, with a dot between each two. The dotted decimal of 0 is
/// empty.
pub open spec fn dotted_text(n: nat) -> Seq<char>
    decreases n,
{
    if n == 0 {
        Seq::empty()
    } else if n < 100 {
        two_digits(n)
    } else {
        dotted_text(n / 100) + seq!['.'] + two_digits(n % 100)
    }
}

/// The groups written one after the other with a dot between each two.
pub open spec fn joined_groups(groups: Seq<Seq<char>>) -> Seq<char>
    decreases groups.len(),
{
    if groups.len() == 0 {
        Seq::empty()
    } else if groups.len() == 1 {
        groups[0]
    } else {
        joined_groups(groups.drop_last()) + seq!['.'] + groups.last()
    }
}

/// Whether every one of `groups` is two decimal digits, and the first is
/// not `00`.
pub open spec fn are_canonical_groups(groups: Seq<Seq<char>>) -> bool {
    &&& groups.len() > 0
    &&& forall|i: int|
        0 <= i < groups.len() ==> is_decimal_group(#[trigger] groups[i]) && groups[i].len() == 2
    &&& numeral_value(groups[0], 10) > 0
}

/// Whether `s` is a dotted decimal in the form in which it is written:
/// groups of two digits, the first of them not `00`.
pub open spec fn is_canonical_dotted(s: Seq<char>) -> bool {
    are_canonical_groups(dotted_groups(s))
}

/// Whether all groups but the last are decimal groups, and the last holds
/// decimal digits only: what holds of every prefix of a dotted decimal.
spec fn are_open_decimal_groups(groups: Seq<Seq<char>>) -> bool {
    &&& groups.len() > 0
    &&& are_decimal_groups(groups.drop_last())
    &&& is_numeral(groups.last(), 10)
}

/// Every string has at least one group.
proof fn lemma_dotted_groups_nonempty(s: Seq<char>)
    ensures
        dotted_groups(s).len() > 0,
    decreases s.len(),
{
    if s.len() > 0 {
        lemma_dotted_groups_nonempty(s.drop_last());
    }
}

/// Open decimal groups denote numbers that are not negative.
proof fn lemma_groups_value_nonnegative(groups: Seq<Seq<char>>)
    requires
        are_open_decimal_groups(groups),
    ensures
        0 <= groups_value(groups.drop_last()),
        0 <= numeral_value(groups.last(), 10),
        0 <= groups_value(groups),
    decreases groups.len(),
{
    let front = groups.drop_last();
    lemma_numeral_value_prefix(groups.last(), 10, 0);
    if front.len() > 0 {
        assert(is_decimal_group(front[front.len() - 1]));
        assert forall|i: int| 0 <= i < front.drop_last().len() implies is_decimal_group(
            #[trigger] front.drop_last()[i],
        ) by {
            assert(front.drop_last()[i] == front[i]);
        }
        lemma_groups_value_nonnegative(front);
    }
}

/// The groups of a dotted decimal are open decimal groups.
proof fn lemma_dotted_decimal_is_open(s: Seq<char>)
    requires
        is_dotted_decimal(s),
    ensures
        are_open_decimal_groups(dotted_groups(s)),
{
    let groups = dotted_groups(s);
    lemma_dotted_groups_nonempty(s);
    assert(is_decimal_group(groups[groups.len() - 1]));
    assert forall|i: int| 0 <= i < groups.drop_last().len() implies is_decimal_group(
        #[trigger] groups.drop_last()[i],
    ) by {
        assert(groups.drop_last()[i] == groups[i]);
    }
}

/// A dotted decimal stands for a number that is not negative.
pub proof fn lemma_dotted_value_nonnegative(s: Seq<char>)
    requires
        is_dotted_decimal(s),
    ensures
        0 <= dotted_value(s),
{
    lemma_dotted_decimal_is_open(s);
    lemma_groups_value_nonnegative(dotted_groups(s));
}

/// Taking the last character away from a string whose groups are open
/// decimal groups leaves such a string, and one whose number is no larger.
proof fn lemma_dotted_prefix_step(s: Seq<char>)
    requires
        s.len() > 0,
        are_open_decimal_groups(dotted_groups(s)),
    ensures
        are_open_decimal_groups(dotted_groups(s.drop_last())),
        groups_value(dotted_groups(s.drop_last())) <= groups_value(dotted_groups(s)),
{
    let before = dotted_groups(s.drop_last());
    let after = dotted_groups(s);
    lemma_dotted_groups_nonempty(s.drop_last());
    if s.last() == '.' {
        assert(after.drop_last() == before);
        assert(is_decimal_group(before[before.len() - 1]));
        assert forall|i: int| 0 <= i < before.drop_last().len() implies is_decimal_group(
            #[trigger] before.drop_last()[i],
        ) by {
            assert(before.drop_last()[i] == before[i]);
        }
        lemma_groups_value_nonnegative(before);
        assert(numeral_value(after.last(), 10) == 0);
    } else {
        let group = before.last();
        assert(after.drop_last() == before.drop_last());
        assert(after.last() == group.push(s.last()));
        assert forall|i: int| 0 <= i < group.len() implies is_digit_of(#[trigger] group[i], 10) by {
            assert(group[i] == after.last()[i]);
        }
        lemma_groups_value_nonnegative(before);
        assert(after.last().drop_last() == group);
        assert(is_digit_of(after.last()[group.len() as int], 10));
    }
}

/// Every prefix of a string whose groups are open decimal groups is such a
/// string, and its number is no larger.
proof fn lemma_dotted_prefix(s: Seq<char>, len: int)
    requires
        0 <= len <= s.len(),
        are_open_decimal_groups(dotted_groups(s)),
    ensures
        are_open_decimal_groups(dotted_groups(s.take(len))),
        groups_value(dotted_groups(s.take(len))) <= groups_value(dotted_groups(s)),
    decreases s.len(),
{
    if len == s.len() {
        assert(s.take(len) == s);
    } else {
        lemma_dotted_prefix_step(s);
        lemma_dotted_prefix(s.drop_last(), len);
        assert(s.drop_last().take(len) == s.take(len));
    }
}

/// A string is its groups with dots between them.
pub proof fn lemma_joined_groups(s: Seq<char>)
    ensures
        joined_groups(dotted_groups(s)) == s,
    decreases s.len(),
{
    if s.len() > 0 {
        let front = s.drop_last();
        let before = dotted_groups(front);
        let after = dotted_groups(s);
        lemma_joined_groups(front);
        lemma_dotted_groups_nonempty(front);
        if s.last() == '.' {
            assert(after.drop_last() == before);
            assert(joined_groups(after) == front + seq!['.'] + Seq::<char>::empty());
            assert(front + seq!['.'] + Seq::<char>::empty() == s);
        } else {
            if before.len() == 1 {
                assert(joined_groups(after) == before[0].push(s.last()));
            } else {
                assert(after.drop_last() == before.drop_last());
                assert(joined_groups(after) == joined_groups(before.drop_last()) + seq!['.']
                    + before.last().push(s.last()));
                assert(joined_groups(before.drop_last()) + seq!['.'] + before.last().push(s.last())
                    == (joined_groups(before.drop_last()) + seq!['.'] + before.last()).push(
                    s.last(),
                ));
            }
            assert(front.push(s.last()) == s);
        }
    }
}

/// A group of two decimal digits denotes a number below 100 and is the two
/// digits of that number.
pub proof fn lemma_two_digits(group: Seq<char>)
    requires
        is_decimal_group(group),
        group.len() == 2,
    ensures
        0 <= numeral_value(group, 10) < 100,
        two_digits(numeral_value(group, 10) as nat) == group,
{
    assert(is_digit_of(group[0], 10));
    assert(is_digit_of(group[1], 10));
    lemma_symbol_digit(group[0]);
    lemma_symbol_digit(group[1]);
    lemma_numeral_value_push(Seq::<char>::empty(), group[0], 10);
    lemma_numeral_value_push(Seq::<char>::empty().push(group[0]), group[1], 10);
    assert(group == Seq::<char>::empty().push(group[0]).push(group[1]));
}

/// Writing the number of groups in the form in which they are written gives
/// the groups back.
pub proof fn lemma_dotted_text_of_groups(groups: Seq<Seq<char>>)
    requires
        are_canonical_groups(groups),
    ensures
        groups_value(groups) > 0,
        dotted_text(groups_value(groups) as nat) == joined_groups(groups),
    decreases groups.len(),
{
    let last = groups.last();
    let front = groups.drop_last();
    let high = groups_value(front);
    let low = numeral_value(last, 10);
    assert(is_decimal_group(groups[groups.len() - 1]));
    lemma_two_digits(last);
    assert(groups_value(groups) == high * 100 + low);
    if groups.len() == 1 {
        assert(high == 0);
        assert(last == groups[0]);
        assert(dotted_text(low as nat) == two_digits(low as nat));
    } else {
        assert(front[0] == groups[0]);
        assert forall|i: int| 0 <= i < front.len() implies is_decimal_group(#[trigger] front[i])
            && front[i].len() == 2 by {
            assert(front[i] == groups[i]);
        }
        lemma_dotted_text_of_groups(front);
        let value = (high * 100 + low) as nat;
        assert(value >= 100 && value / 100 == high && value % 100 == low);
        assert(dotted_text(value) == dotted_text(high as nat) + seq!['.'] + two_digits(low as nat));
    }
}

/// Writing the number of a dotted decimal that is in the form in which it
/// is written gives it back.
pub proof fn lemma_dotted_text_of_value(s: Seq<char>)
    requires
        is_canonical_dotted(s),
    ensures
        is_dotted_decimal(s),
        dotted_value(s) > 0,
        dotted_text(dotted_value(s) as nat) == s,
{
    lemma_joined_groups(s);
    lemma_dotted_text_of_groups(dotted_groups(s));
}

/// The groups of a string that ends in a dot and then in `tail`, which holds
/// no dot: the groups of what stands before the dot, and `tail`.
proof fn lemma_dotted_groups_append(front: Seq<char>, tail: Seq<char>)
    requires
        forall|i: int| 0 <= i < tail.len() ==> tail[i] != '.',
    ensures
        dotted_groups(front + seq!['.'] + tail) == dotted_groups(front).push(tail),
    decreases tail.len(),
{
    let whole = front + seq!['.'] + tail;
    if tail.len() == 0 {
        assert(whole.drop_last() == front);
        assert(tail == Seq::<char>::empty());
    } else {
        let shorter = tail.drop_last();
        lemma_dotted_groups_append(front, shorter);
        assert(whole.drop_last() == front + seq!['.'] + shorter);
        assert(whole.last() == tail.last());
        assert(shorter.push(tail.last()) == tail);
        let before = dotted_groups(front).push(shorter);
        assert(before.update(before.len() - 1, before.last().push(tail.last())) == dotted_groups(
            front,
        ).push(tail));
    }
}

/// The two digits of a number below 100 hold no dot and denote the number.
proof fn lemma_two_digits_value(n: nat)
    requires
        n < 100,
    ensures
        is_decimal_group(two_digits(n)),
        two_digits(n).len() == 2,
        numeral_value(two_digits(n), 10) == n,
        forall|i: int| 0 <= i < two_digits(n).len() ==> two_digits(n)[i] != '.',
{
    let high = digit_symbol((n / 10) as int);
    let low = digit_symbol((n % 10) as int);
    crate::alphabet::lemma_digit_symbol((n / 10) as int);
    crate::alphabet::lemma_digit_symbol((n % 10) as int);
    lemma_numeral_value_push(Seq::<char>::empty(), high, 10);
    lemma_numeral_value_push(Seq::<char>::empty().push(high), low, 10);
    assert(two_digits(n) == Seq::<char>::empty().push(high).push(low));
    assert(is_digit_of(two_digits(n)[0], 10));
    assert(is_digit_of(two_digits(n)[1], 10));
}

/// The number of groups in the dotted decimal of the positive number `n`:
/// the number of its digits in base 100.
pub open spec fn group_count(n: nat) -> nat
    decreases n,
{
    if n < 100 {
        1
    } else {
        1 + group_count(n / 100)
    }
}

/// The dotted decimal of a positive number is in the form in which dotted
/// decimals are written, and reading it gives the number back.
pub proof fn lemma_dotted_value_of_text(n: nat)
    requires
        n > 0,
    ensures
        is_canonical_dotted(dotted_text(n)),
        is_dotted_decimal(dotted_text(n)),
        dotted_value(dotted_text(n)) == n,
        dotted_groups(dotted_text(n)).len() == group_count(n),
    decreases n,
{
    let low = two_digits(n % 100);
    lemma_two_digits_value(n % 100);
    if n < 100 {
        let none = Seq::<char>::empty();
        let one = low.drop_last();
        assert(one.drop_last() == none);
        assert(dotted_groups(none) == seq![none]);
        assert(none.push(low[0]) == one);
        assert(dotted_groups(one) =~~= seq![one]);
        assert(one.push(low[1]) == low);
        assert(dotted_groups(low) =~~= seq![low]);
        assert(seq![low].drop_last() == Seq::<Seq<char>>::empty());
        assert(groups_value(seq![low]) == groups_value(Seq::<Seq<char>>::empty()) * 100
            + numeral_value(low, 10));
    } else {
        let front = dotted_text(n / 100);
        lemma_dotted_value_of_text(n / 100);
        lemma_dotted_groups_append(front, low);
        let groups = dotted_groups(front).push(low);
        assert(groups.drop_last() == dotted_groups(front));
        assert(groups[0] == dotted_groups(front)[0]);
        assert forall|i: int| 0 <= i < groups.len() implies is_decimal_group(#[trigger] groups[i])
            && groups[i].len() == 2 by {
            if i < groups.len() - 1 {
                assert(groups[i] == dotted_groups(front)[i]);
            }
        }
    }
}

/// Reads the characters of `v` from position `from` on as a dotted decimal.
pub fn read_dotted(v: &Vec<char>, from: usize) -> (r: Option<u64>)
    requires
        from <= v.len(),
    ensures
        r == dotted_number(v@.skip(from as int)),
{
    let ghost s = v@.skip(from as int);
    let mut total: u64 = 0;
    let mut group: u64 = 0;
    let mut digits: usize = 0;
    let mut i: usize = from;
    while i < v.len()
        invariant
            from <= i <= v.len(),
            s == v@.skip(from as int),
            are_open_decimal_groups(dotted_groups(s.take(i - from))),
            total == groups_value(dotted_groups(s.take(i - from)).drop_last()),
            group == numeral_value(dotted_groups(s.take(i - from)).last(), 10),
            digits == dotted_groups(s.take(i - from)).last().len(),
            digits <= i - from,
        decreases v.len() - i,
    {
        let c = v[i];
        let ghost before = dotted_groups(s.take(i - from));
        let ghost after = dotted_groups(s.take(i + 1 - from));
        proof {
            assert(s.take(i + 1 - from).drop_last() == s.take(i - from));
            assert(s.take(i + 1 - from).last() == c);
            if is_dotted_decimal(s) {
                lemma_dotted_decimal_is_open(s);
                lemma_dotted_prefix(s, i - from);
                lemma_dotted_prefix(s, i + 1 - from);
                lemma_groups_value_nonnegative(after);
            }
            lemma_groups_value_nonnegative(before);
        }
        if c == '.' {
            proof {
                assert(after.drop_last() == before);
            }
            if digits == 0 {
                assert(!is_decimal_group(before[before.len() - 1]));
                return None;
            }
            let shifted: u64 = match total.checked_mul(100) {
                Some(x) => x,
                None => {
                    return None;
                },
            };
            total = match shifted.checked_add(group) {
                Some(x) => x,
                None => {
                    return None;
                },
            };
            group = 0;
            digits = 0;
            proof {
                assert forall|j: int| 0 <= j < before.len() implies is_decimal_group(
                    #[trigger] before[j],
                ) by {
                    if j < before.len() - 1 {
                        assert(before[j] == before.drop_last()[j]);
                    }
                }
            }
        } else {
            proof {
                assert(after.drop_last() == before.drop_last());
                assert(after.last() == before.last().push(c));
                assert(after.last().drop_last() == before.last());
            }
            let d: u64 = match get_friendly64_char_index(c) {
                Ok(d) => d,
                Err(_) => {
                    assert(!is_digit_of(after.last()[before.last().len() as int], 10));
                    return None;
                },
            };
            if d >= 10 {
                assert(!is_digit_of(after.last()[before.last().len() as int], 10));
                return None;
            }
            let shifted: u64 = match group.checked_mul(10) {
                Some(x) => x,
                None => {
                    return None;
                },
            };
            group = match shifted.checked_add(d) {
                Some(x) => x,
                None => {
                    return None;
                },
            };
            digits = digits + 1;
            proof {
                assert forall|j: int| 0 <= j < after.last().len() implies is_digit_of(
                    #[trigger] after.last()[j],
                    10,
                ) by {
                    if j < before.last().len() {
                        assert(after.last()[j] == before.last()[j]);
                    }
                }
            }
        }
        i = i + 1;
    }
    proof {
        assert(s.take(i - from) == s);
        lemma_groups_value_nonnegative(dotted_groups(s));
    }
    if digits == 0 {
        assert(!is_decimal_group(dotted_groups(s)[dotted_groups(s).len() - 1]));
        return None;
    }
    proof {
        let groups = dotted_groups(s);
        assert forall|j: int| 0 <= j < groups.len() implies is_decimal_group(#[trigger] groups[j]) by {
            if j < groups.len() - 1 {
                assert(groups[j] == groups.drop_last()[j]);
            }
        }
    }
    let shifted: u64 = match total.checked_mul(100) {
        Some(x) => x,
        None => {
            return None;
        },
    };
    shifted.checked_add(group)
}

/// The number that a dotted decimal such as `04.03.00` stands for.
/// `InvalidVersion` where `string` is no dotted decimal, or where the number
/// is larger than any `u64`.
pub fn convert_period_separated_string_to_base10(string: String) -> (r: Result<u64, VegCodeError>)
    ensures
        match r {
            Ok(n) => dotted_number(string@) == Some(n),
            Err(e) => e == VegCodeError::InvalidVersion && dotted_number(string@) is None,
        },
{
    let v = string_chars(string.as_str());
    assert(v@.skip(0) == v@);
    match read_dotted(&v, 0) {
        Some(n) => Ok(n),
        None => Err(VegCodeError::InvalidVersion),
    }
}

/// The dotted decimal of `num`, such as `31.01.02` for 310102. Every group
/// has two digits.
pub fn base10_to_period_separated_string(num: u64) -> (s: String)
    ensures
        s@ == dotted_text(num as nat),
{
    let mut reversed: Vec<char> = Vec::new();
    let mut rest: u64 = num;
    while rest > 0
        invariant
            dotted_text(num as nat) == (if rest == 0 {
                Seq::<char>::empty()
            } else if reversed.len() == 0 {
                dotted_text(rest as nat)
            } else {
                dotted_text(rest as nat) + seq!['.']
            }) + reversed@.reverse(),
        decreases rest,
    {
        let ghost before = reversed@;
        let remainder: u64 = rest % 100;
        if reversed.len() > 0 {
            reversed.push('.');
        }
        reversed.push(get_base62_char(remainder % 10));
        reversed.push(get_base62_char(remainder / 10));
        proof {
            let tail = if before.len() == 0 {
                Seq::<char>::empty()
            } else {
                seq!['.']
            };
            assert(reversed@.reverse() == two_digits(remainder as nat) + tail + before.reverse());
            if rest >= 100 {
                assert(dotted_text(rest as nat) == dotted_text((rest / 100) as nat) + seq!['.']
                    + two_digits(remainder as nat));
            } else {
                assert(dotted_text(rest as nat) == two_digits(remainder as nat));
            }
        }
        rest = rest / 100;
    }
    string_from_chars_reversed(&reversed)
}

/// The dotted decimal of the number that the base 62 numeral `string_base62`
/// denotes.
pub fn base62_to_period_separated_string(string_base62: String) -> (r: Result<String, VegCodeError>)
    ensures
        match read_numeral_result(string_base62@, 62, VegCodeError::InvalidSymbol) {
            Ok(n) => r is Ok && r.unwrap()@ == dotted_text(n as nat),
            Err(e) => r == Err::<String, VegCodeError>(e),
        },
{
    match base62_to_base10(string_base62) {
        Ok(num) => Ok(base10_to_period_separated_string(num)),
        Err(e) => Err(e),
    }
}

} // verus!
