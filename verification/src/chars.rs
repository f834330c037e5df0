//! Character classes and case mapping, restricted to ASCII.

use vstd::prelude::*;

verus! {

/// The ten ASCII vowel letters, both cases.
pub open spec fn is_vowel_char(c: char) -> bool {
    c == 'a' || c == 'e' || c == 'i' || c == 'o' || c == 'u' || c == 'A' || c == 'E' || c == 'I'
        || c == 'O' || c == 'U'
}

/// ASCII punctuation: the four runs of the ASCII table that are neither
/// letters, digits, whitespace nor control characters.
pub open spec fn is_punct_char(c: char) -> bool {
    let u = c as int;
    (0x21 <= u && u <= 0x2f) || (0x3a <= u && u <= 0x40) || (0x5b <= u && u <= 0x60) || (0x7b <= u
        && u <= 0x7e)
}

/// ASCII whitespace: space, tab, line feed, vertical tab, form feed,
/// carriage return.
pub open spec fn is_space_char(c: char) -> bool {
    let u = c as int;
    u == 0x20 || (0x09 <= u && u <= 0x0d)
}

pub open spec fn is_upper_char(c: char) -> bool {
    0x41 <= c as int && c as int <= 0x5a
}

pub open spec fn is_lower_char(c: char) -> bool {
    0x61 <= c as int && c as int <= 0x7a
}

pub open spec fn is_letter_char(c: char) -> bool {
    is_upper_char(c) || is_lower_char(c)
}

/// Maps an ASCII uppercase letter to its lowercase form; every other
/// character is unchanged.
pub open spec fn to_lower_char(c: char) -> char {
    if is_upper_char(c) {
        (c as int + 0x20) as char
    } else {
        c
    }
}

/// Maps an ASCII lowercase letter to its uppercase form; every other
/// character is unchanged.
pub open spec fn to_upper_char(c: char) -> char {
    if is_lower_char(c) {
        (c as int - 0x20) as char
    } else {
        c
    }
}

/// Decides whether a character is an ASCII vowel letter.
pub fn is_vowel(c: char) -> (r: bool)
    ensures
        r == is_vowel_char(c),
{
    c == 'a' || c == 'e' || c == 'i' || c == 'o' || c == 'u' || c == 'A' || c == 'E' || c == 'I'
        || c == 'O' || c == 'U'
}

/// Decides whether a character is ASCII punctuation.
pub fn is_punctuation(c: char) -> (r: bool)
    ensures
        r == is_punct_char(c),
{
    let u = c as u32;
    (0x21 <= u && u <= 0x2f) || (0x3a <= u && u <= 0x40) || (0x5b <= u && u <= 0x60) || (0x7b <= u
        && u <= 0x7e)
}

/// Decides whether a character is ASCII whitespace.
pub fn is_separator(c: char) -> (r: bool)
    ensures
        r == is_space_char(c),
{
    let u = c as u32;
    u == 0x20 || (0x09 <= u && u <= 0x0d)
}

/// Decides whether a character is an ASCII uppercase letter.
pub fn is_uppercase_letter(c: char) -> (r: bool)
    ensures
        r == is_upper_char(c),
{
    let u = c as u32;
    0x41 <= u && u <= 0x5a
}

/// Lowercases an ASCII uppercase letter; leaves any other character as it is.
pub fn lower_char(c: char) -> (r: char)
    ensures
        r == to_lower_char(c),
{
    let u = c as u32;
    if 0x41 <= u && u <= 0x5a {
        ((u + 0x20) as u8) as char
    } else {
        c
    }
}

/// Uppercases an ASCII lowercase letter; leaves any other character as it is.
pub fn upper_char(c: char) -> (r: char)
    ensures
        r == to_upper_char(c),
{
    let u = c as u32;
    if 0x61 <= u && u <= 0x7a {
        ((u - 0x20) as u8) as char
    } else {
        c
    }
}

/// Relies on String::push: appends the given character to the end of the
/// string.
#[verifier::external_body]
pub(crate) fn push_char(s: &mut String, c: char)
    ensures
        final(s)@ == old(s)@.push(c),
{
    s.push(c);
}

} // verus!
