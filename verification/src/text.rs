//! Character-level helpers shared by the other modules.

use vstd::prelude::*;

verus! {

/// The characters of `s`, in order.
pub fn chars_of(s: &str) -> (v: Vec<char>)
    ensures
        v@ == s@,
{
    broadcast use vstd::string::group_string_axioms;

    let mut v: Vec<char> = Vec::new();
    for c in it: s.chars()
        invariant
            it.seq() == s@,
            v@ == s@.take(it.index()),
    {
        v.push(c);
        proof {
            assert(v@ =~= s@.take(it.index() + 1));
        }
    }
    assert(s@.take(s@.len() as int) =~= s@);
    v
}

} // verus!

verus! {

/// `String::push`: appends the character `c` to the end of `s`.
#[verifier::external_body]
pub(crate) fn push_char(s: &mut String, c: char)
    ensures
        final(s)@ == old(s)@.push(c),
{
    s.push(c);
}

/// What `char::is_alphanumeric` answers for `c` (Unicode `Alphabetic` or
/// `Numeric`); of it only the answer on ASCII characters is stated.
pub uninterp spec fn char_is_alphanumeric(c: char) -> bool;

/// An ASCII digit or an ASCII letter.
pub open spec fn is_ascii_alphanumeric_spec(c: char) -> bool {
    ||| 0x30 <= (c as u32) <= 0x39
    ||| 0x41 <= (c as u32) <= 0x5A
    ||| 0x61 <= (c as u32) <= 0x7A
}

/// Whether `c` is alphanumeric: a letter or digit among ASCII characters,
/// what `char::is_alphanumeric` answers elsewhere.
pub open spec fn alphanumeric(c: char) -> bool {
    if (c as u32) < 0x80 {
        is_ascii_alphanumeric_spec(c)
    } else {
        char_is_alphanumeric(c)
    }
}

/// `char::is_alphanumeric`; its answer is named by `char_is_alphanumeric`.
/// Among ASCII characters the alphabetic ones (Unicode `Alphabetic`) are
/// the letters and the numeric ones (general categories `Nd`, `Nl`, `No`)
/// are the digits, so there the answer is "a letter or a digit".
#[verifier::external_body]
pub(crate) fn is_alphanumeric(c: char) -> (r: bool)
    ensures
        r == char_is_alphanumeric(c),
        (c as u32) < 0x80 ==> (r == is_ascii_alphanumeric_spec(c)),
{
    c.is_alphanumeric()
}

/// Equality of two strings, character by character.
pub fn str_eq(a: &str, b: &str) -> (r: bool)
    ensures
        r == (a@ == b@),
{
    let x = String::from_str(a);
    let y = String::from_str(b);
    x == y
}

} // verus!
