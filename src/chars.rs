//! Character classes, from std.
use vstd::prelude::*;

verus! {

/// Whether `char::is_whitespace` holds of `c`.
pub uninterp spec fn whitespace(c: char) -> bool;

/// Whether `char::is_alphabetic` holds of `c`.
pub uninterp spec fn alphabetic(c: char) -> bool;

/// Whether `char::is_alphanumeric` holds of `c`.
pub uninterp spec fn alphanumeric(c: char) -> bool;

/// Relies on `char::is_whitespace`: Unicode's White_Space property.
#[verifier::external_body]
pub fn is_space(c: char) -> (r: bool)
    ensures
        r == whitespace(c),
{
    c.is_whitespace()
}

/// Relies on `char::is_alphabetic`: Unicode's Alphabetic property.
#[verifier::external_body]
pub fn is_letter(c: char) -> (r: bool)
    ensures
        r == alphabetic(c),
{
    c.is_alphabetic()
}

/// Relies on `char::is_alphanumeric`: alphabetic or numeric.
#[verifier::external_body]
pub fn is_letter_or_digit(c: char) -> (r: bool)
    ensures
        r == alphanumeric(c),
{
    c.is_alphanumeric()
}

pub open spec fn is_ascii_char(c: char) -> bool {
    (c as u32) < 128
}

/// Whitespace: in ASCII the space and tab through carriage return, beyond
/// ASCII what `char::is_whitespace` says (the two agree on ASCII).
pub open spec fn space_char(c: char) -> bool {
    if is_ascii_char(c) { c == ' ' || ('\t' <= c <= '\r') } else { whitespace(c) }
}

/// A letter: in ASCII `A` to `Z` and `a` to `z`, beyond ASCII what
/// `char::is_alphabetic` says.
pub open spec fn letter_char(c: char) -> bool {
    if is_ascii_char(c) { ('A' <= c <= 'Z') || ('a' <= c <= 'z') } else { alphabetic(c) }
}

/// A letter or digit: in ASCII letters and `0` to `9`, beyond ASCII what
/// `char::is_alphanumeric` says.
pub open spec fn alnum_char(c: char) -> bool {
    if is_ascii_char(c) {
        ('A' <= c <= 'Z') || ('a' <= c <= 'z') || ('0' <= c <= '9')
    } else {
        alphanumeric(c)
    }
}

pub fn is_space_char(c: char) -> (r: bool)
    ensures
        r == space_char(c),
{
    if (c as u32) < 128 { c == ' ' || ('\t' <= c && c <= '\r') } else { is_space(c) }
}

pub fn is_letter_char(c: char) -> (r: bool)
    ensures
        r == letter_char(c),
{
    if (c as u32) < 128 { ('A' <= c && c <= 'Z') || ('a' <= c && c <= 'z') } else { is_letter(c) }
}

pub fn is_alnum_char(c: char) -> (r: bool)
    ensures
        r == alnum_char(c),
{
    if (c as u32) < 128 {
        ('A' <= c && c <= 'Z') || ('a' <= c && c <= 'z') || ('0' <= c && c <= '9')
    } else {
        is_letter_or_digit(c)
    }
}

} // verus!
