//! Character classes used by the tokenizer and by hover word resolution.

use vstd::prelude::*;

verus! {

/// Whitespace dropped by the tokenizer: space, tab, carriage return, line feed.
pub open spec fn is_space_char(c: char) -> bool {
    c == ' ' || c == '\t' || c == '\n' || c == '\r'
}

/// An ASCII decimal digit.
pub open spec fn is_digit_char(c: char) -> bool {
    '0' <= c && c <= '9'
}

/// A character that may start a word token: an ASCII letter or an underscore.
pub open spec fn is_word_start_char(c: char) -> bool {
    ('a' <= c && c <= 'z') || ('A' <= c && c <= 'Z') || c == '_'
}

/// A character that may continue a word token, and an identifier character
/// for hover resolution: an ASCII letter, digit or underscore.
pub open spec fn is_word_char(c: char) -> bool {
    is_word_start_char(c) || is_digit_char(c)
}

/// Executable check for [`is_space_char`].
pub fn space_char(c: char) -> (b: bool)
    ensures
        b == is_space_char(c),
{
    c == ' ' || c == '\t' || c == '\n' || c == '\r'
}

/// Executable check for [`is_digit_char`].
pub fn digit_char(c: char) -> (b: bool)
    ensures
        b == is_digit_char(c),
{
    '0' <= c && c <= '9'
}

/// Executable check for [`is_word_start_char`].
pub fn word_start_char(c: char) -> (b: bool)
    ensures
        b == is_word_start_char(c),
{
    ('a' <= c && c <= 'z') || ('A' <= c && c <= 'Z') || c == '_'
}

/// Executable check for [`is_word_char`].
pub fn word_char(c: char) -> (b: bool)
    ensures
        b == is_word_char(c),
{
    word_start_char(c) || digit_char(c)
}

/// Whether a character counts as alphabetic, exactly as the standard library
/// decides it.  The result depends on the character alone.
pub uninterp spec fn char_alphabetic(c: char) -> bool;

/// Relies on char::is_alphabetic: a pure function of the character; ASCII
/// letters are alphabetic and no other ASCII character is.
#[verifier::external_body]
pub fn alphabetic_char(c: char) -> (b: bool)
    ensures
        b == char_alphabetic(c),
        (('a' <= c && c <= 'z') || ('A' <= c && c <= 'Z')) ==> b,
        ((c as u32) < 128 && !(('a' <= c && c <= 'z') || ('A' <= c && c <= 'Z'))) ==> !b,
{
    c.is_alphabetic()
}

} // verus!
