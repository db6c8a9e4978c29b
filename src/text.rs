//! The few std string and character operations that the library needs and
//! that vstd gives no specification.
use vstd::prelude::*;

verus! {

/// Relies on `String::push`: appends one character.
#[verifier::external_body]
pub(crate) fn push_char(s: &mut String, c: char)
    ensures
        final(s)@ == old(s)@.push(c),
{
    s.push(c);
}

/// Relies on `String::push_str`: appends the characters of `t`.
#[verifier::external_body]
pub(crate) fn push_str(s: &mut String, t: &str)
    ensures
        final(s)@ == old(s)@ + t@,
{
    s.push_str(t);
}

/// Relies on `str::chars`: the characters of `s`, in order.
#[verifier::external_body]
pub(crate) fn chars_of(s: &str) -> (r: Vec<char>)
    ensures
        r@ == s@,
{
    s.chars().collect()
}

/// Whether `c` has the Unicode `White_Space` property: the 25 code points
/// U+0009..U+000D, U+0020, U+0085, U+00A0, U+1680, U+2000..U+200A, U+2028,
/// U+2029, U+202F, U+205F and U+3000.
pub open spec fn white_space(c: char) -> bool {
    ('\u{9}' <= c && c <= '\u{d}') || c == ' ' || c == '\u{85}' || c == '\u{a0}' || c == '\u{1680}'
        || ('\u{2000}' <= c && c <= '\u{200a}') || c == '\u{2028}' || c == '\u{2029}' || c == '\u{202f}'
        || c == '\u{205f}' || c == '\u{3000}'
}

/// Whether `c` is white space (see `white_space`).
pub fn is_whitespace(c: char) -> (r: bool)
    ensures
        r == white_space(c),
{
    ('\u{9}' <= c && c <= '\u{d}') || c == ' ' || c == '\u{85}' || c == '\u{a0}' || c == '\u{1680}'
        || ('\u{2000}' <= c && c <= '\u{200a}') || c == '\u{2028}' || c == '\u{2029}' || c == '\u{202f}'
        || c == '\u{205f}' || c == '\u{3000}'
}

/// Whether a character outside ASCII has the Unicode `Alphabetic` property.
pub uninterp spec fn alphabetic(c: char) -> bool;

/// Whether `c` has the Unicode `Alphabetic` property. Among ASCII
/// characters exactly the letters `A`..`Z` and `a`..`z` have it.
pub open spec fn letter(c: char) -> bool {
    if c <= '\u{7f}' {
        ('A' <= c && c <= 'Z') || ('a' <= c && c <= 'z')
    } else {
        alphabetic(c)
    }
}

/// Relies on `char::is_alphabetic`: Unicode `Alphabetic`.
#[verifier::external_body]
fn is_alphabetic(c: char) -> (r: bool)
    ensures
        r == alphabetic(c),
{
    c.is_alphabetic()
}

/// Whether `c` is a letter (see `letter`).
pub fn is_letter(c: char) -> (r: bool)
    ensures
        r == letter(c),
{
    if c <= '\u{7f}' {
        ('A' <= c && c <= 'Z') || ('a' <= c && c <= 'z')
    } else {
        is_alphabetic(c)
    }
}

} // verus!
