//! Building and taking apart strings one character at a time.

use vstd::prelude::*;

verus! {

/// Appends one character to a string.
///
/// Calls `String::push` of the standard library, which appends the given
/// character to the end of the string.
#[verifier::external_body]
pub(crate) fn push_char(s: &mut String, c: char)
    ensures
        final(s)@ == old(s)@.push(c),
{
    s.push(c);
}

/// The characters of a string, in order.
pub fn string_chars(s: &str) -> (v: Vec<char>)
    ensures
        v@ == s@,
{
    let mut v: Vec<char> = Vec::new();
    for c in chars: s.chars()
        invariant
            chars.seq() == s@,
            v@ == chars.seq().take(chars.index() as int),
    {
        v.push(c);
    }
    v
}

/// The string made of the characters `v[from..to]`.
pub fn string_from_chars(v: &Vec<char>, from: usize, to: usize) -> (s: String)
    requires
        from <= to <= v.len(),
    ensures
        s@ == v@.subrange(from as int, to as int),
{
    let mut s = String::new();
    let mut i: usize = from;
    while i < to
        invariant
            from <= i <= to <= v.len(),
            s@ == v@.subrange(from as int, i as int),
        decreases to - i,
    {
        push_char(&mut s, v[i]);
        i = i + 1;
    }
    s
}

/// The string made of the characters of `v`, last one first.
pub fn string_from_chars_reversed(v: &Vec<char>) -> (s: String)
    ensures
        s@ == v@.reverse(),
{
    let mut s = String::new();
    let mut i: usize = v.len();
    while i > 0
        invariant
            i <= v.len(),
            s@ == v@.reverse().subrange(0, v.len() - i),
        decreases i,
    {
        i = i - 1;
        push_char(&mut s, v[i]);
    }
    s
}

/// Replaces the character at position `index` of `string` by `character`.
pub fn set_char_for_string(string: &mut String, index: usize, character: char)
    requires
        index < old(string)@.len(),
    ensures
        final(string)@ == old(string)@.update(index as int, character),
{
    let mut chars = string_chars(string.as_str());
    chars.set(index, character);
    *string = string_from_chars(&chars, 0, chars.len());
    assert(chars@.subrange(0, chars@.len() as int) == chars@);
}

/// The two strings joined, `first` before `second`.
pub fn join(first: &str, second: &str) -> (s: String)
    ensures
        s@ == first@ + second@,
{
    let mut s = String::from_str(first);
    s.append(second);
    s
}

} // verus!
