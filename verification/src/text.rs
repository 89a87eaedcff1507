//! Character classes used by the lexical layer of the parser.
//!
//! The grammar is ASCII by definition: identifiers are runs of ASCII
//! letters, digits and underscores, numbers are runs of ASCII digits with an
//! optional minus sign. A character outside these classes never joins a
//! name; because a parsed line must also be wholly consumed, a name holding
//! such a character makes the line fail to parse rather than being split at
//! the foreign character.

use vstd::prelude::*;
use vstd::string::*;

verus! {

/// A character that may appear in an identifier: an ASCII letter, an ASCII
/// digit, or an underscore.
pub open spec fn is_identifier_char(c: char) -> bool {
    is_ascii_digit(c) || ('a' as u32 <= c as u32 && c as u32 <= 'z' as u32) || (
    'A' as u32 <= c as u32 && c as u32 <= 'Z' as u32) || c == '_'
}

/// An ASCII decimal digit.
pub open spec fn is_ascii_digit(c: char) -> bool {
    '0' as u32 <= c as u32 && c as u32 <= '9' as u32
}

/// A blank character, for the parser's error classification: a character
/// outside this class is reported as a wrong symbol rather than as stray
/// whitespace.
pub open spec fn is_whitespace_char(c: char) -> bool {
    c == ' ' || c == '\t' || c == '\n' || c == '\r'
}

/// Runtime test for [`is_identifier_char`].
pub fn identifier_char(c: char) -> (r: bool)
    ensures
        r == is_identifier_char(c),
{
    let u = c as u32;
    ascii_digit(c) || ('a' as u32 <= u && u <= 'z' as u32) || ('A' as u32 <= u && u <= 'Z' as u32)
        || c == '_'
}

/// Runtime test for [`is_ascii_digit`].
pub fn ascii_digit(c: char) -> (r: bool)
    ensures
        r == is_ascii_digit(c),
{
    let u = c as u32;
    '0' as u32 <= u && u <= '9' as u32
}

/// Runtime test for [`is_whitespace_char`].
pub fn whitespace_char(c: char) -> (r: bool)
    ensures
        r == is_whitespace_char(c),
{
    c == ' ' || c == '\t' || c == '\n' || c == '\r'
}

/// Whether `a` holds exactly the text `b`.
pub fn text_is(a: &String, b: &str) -> (r: bool)
    ensures
        r == (a@ == b@),
{
    let b_string = String::from_str(b);
    *a == b_string
}

/// Relies on `String::push`: appends the given character to the end of the
/// string.
#[verifier::external_body]
pub fn push_char(s: &mut String, c: char)
    ensures
        final(s)@ == old(s)@.push(c),
{
    s.push(c);
}

} // verus!
