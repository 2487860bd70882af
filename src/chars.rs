//! Character classes and the character-level facts that boundary scanning uses.
use vstd::prelude::*;

verus! {

/// Whether `c` has Unicode's White_Space property, as `char::is_whitespace` reports it.
pub uninterp spec fn unicode_whitespace(c: char) -> bool;

/// Whether `c` is alphabetic or numeric in Unicode's sense, as `char::is_alphanumeric`
/// reports it.
pub uninterp spec fn unicode_alphanumeric(c: char) -> bool;

/// Relies on `char::is_whitespace`: whether the character has the White_Space property.
#[verifier::external_body]
fn is_whitespace(c: char) -> (r: bool)
    ensures
        r == unicode_whitespace(c),
{
    c.is_whitespace()
}

/// Relies on `char::is_alphanumeric`: whether the character is alphabetic or numeric.
#[verifier::external_body]
fn is_alphanumeric(c: char) -> (r: bool)
    ensures
        r == unicode_alphanumeric(c),
{
    c.is_alphanumeric()
}

/// ASCII whitespace as `char::is_ascii_whitespace` defines it: space, tab, line feed,
/// form feed and carriage return.
pub open spec fn ascii_whitespace(c: char) -> bool {
    c == ' ' || c == '\t' || c == '\n' || c == '\x0C' || c == '\r'
}

pub fn is_ascii_whitespace(c: char) -> (r: bool)
    ensures
        r == ascii_whitespace(c),
{
    c == ' ' || c == '\t' || c == '\n' || c == '\x0C' || c == '\r'
}

/// A character that can be part of a word: alphanumeric or the underscore.
pub open spec fn word_char(c: char) -> bool {
    unicode_alphanumeric(c) || c == '_'
}

pub fn is_word_char(c: char) -> (r: bool)
    ensures
        r == word_char(c),
{
    is_alphanumeric(c) || c == '_'
}

/// The class of a character, which decides every word boundary.
#[derive(Debug, Clone, Copy, PartialEq, Eq, Structural)]
pub enum CharClass {
    Whitespace,
    Punctuation,
    Regular,
}

pub open spec fn class_of(c: char) -> CharClass {
    if unicode_whitespace(c) || ascii_whitespace(c) {
        CharClass::Whitespace
    } else if !word_char(c) {
        CharClass::Punctuation
    } else {
        CharClass::Regular
    }
}

/// The class used by WORD motions: punctuation counts as part of a WORD.
pub open spec fn big_class_of(c: char) -> CharClass {
    match class_of(c) {
        CharClass::Punctuation => CharClass::Regular,
        k => k,
    }
}

/// The class of `c` for word motions, or for WORD motions when `big` holds.
pub open spec fn class_for(c: char, big: bool) -> CharClass {
    if big {
        big_class_of(c)
    } else {
        class_of(c)
    }
}

pub fn class(c: char) -> (r: CharClass)
    ensures
        r == class_of(c),
{
    if is_whitespace(c) || is_ascii_whitespace(c) {
        CharClass::Whitespace
    } else if !is_word_char(c) {
        CharClass::Punctuation
    } else {
        CharClass::Regular
    }
}

pub fn class_with(c: char, big: bool) -> (r: CharClass)
    ensures
        r == class_for(c, big),
{
    let k = class(c);
    if big {
        match k {
            CharClass::Punctuation => CharClass::Regular,
            _ => k,
        }
    } else {
        k
    }
}

/// Whether `c` is one of the decimal digits `0` to `9`.
pub open spec fn decimal_digit(c: char) -> bool {
    '0' <= c <= '9'
}

/// The value of a decimal digit.
pub open spec fn digit_value(c: char) -> nat {
    ((c as u32) - ('0' as u32)) as nat
}

pub fn is_digit(c: char) -> (r: bool)
    ensures
        r == decimal_digit(c),
{
    '0' <= c && c <= '9'
}

pub fn to_digit(c: char) -> (r: usize)
    requires
        decimal_digit(c),
    ensures
        r as nat == digit_value(c),
        r < 10,
{
    ((c as u32) - ('0' as u32)) as usize
}

/// The characters of a string, in order.
pub fn chars_of(s: &str) -> (r: Vec<char>)
    ensures
        r@ == s@,
{
    let mut r: Vec<char> = Vec::new();
    for c in it: s.chars()
        invariant
            r@ == it.seq().subrange(0, it.index() as int),
    {
        r.push(c);
    }
    r
}

} // verus!
