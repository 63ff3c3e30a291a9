//! Character classes of the language: operator characters, decimal
//! digits, whitespace, and the alphabetic/alphanumeric classes that
//! symbols are made of.
//!
//! Every class has a spec-level predicate and an executable test proved
//! against it. The alphabetic and alphanumeric classes follow Unicode:
//! on ASCII they are stated exactly (letters, respectively letters and
//! digits); beyond ASCII they are abstracted by the names
//! [`alphabetic_ext`] and [`alphanumeric_ext`], which stand for what
//! `char::is_alphabetic` and `char::is_alphanumeric` return there.

use vstd::prelude::*;

verus! {

/// The fixed operator-character set:
/// `. * + - / ~ = ^ % $ ? & | < > : @ ! #`.
pub open spec fn op_char(c: char) -> bool {
    c == '.' || c == '*' || c == '+' || c == '-' || c == '/' || c == '~' || c == '=' || c == '^'
        || c == '%' || c == '$' || c == '?' || c == '&' || c == '|' || c == '<' || c == '>'
        || c == ':' || c == '@' || c == '!' || c == '#'
}

/// A decimal digit, `'0'` to `'9'`.
pub open spec fn digit_char(c: char) -> bool {
    48 <= c as u32 && c as u32 <= 57
}

/// An ASCII letter, `'A'` to `'Z'` or `'a'` to `'z'`.
pub open spec fn ascii_letter(c: char) -> bool {
    (65 <= c as u32 && c as u32 <= 90) || (97 <= c as u32 && c as u32 <= 122)
}

/// A character with Unicode's `White_Space` property. These are exactly
/// the code points that `char::is_whitespace` accepts: the ASCII
/// whitespace controls and space, NEL, and the non-ASCII space and
/// separator characters.
pub open spec fn whitespace_char(c: char) -> bool {
    let u = c as u32;
    (9 <= u && u <= 13) || u == 0x20 || u == 0x85 || u == 0xA0 || u == 0x1680 || (0x2000 <= u
        && u <= 0x200A) || u == 0x2028 || u == 0x2029 || u == 0x202F || u == 0x205F || u == 0x3000
}

/// What `char::is_alphabetic` returns on a character beyond ASCII.
pub uninterp spec fn alphabetic_ext(c: char) -> bool;

/// What `char::is_alphanumeric` returns on a character beyond ASCII.
pub uninterp spec fn alphanumeric_ext(c: char) -> bool;

/// An alphabetic character: on ASCII exactly the letters, beyond ASCII
/// whatever `char::is_alphabetic` accepts — never a whitespace
/// character, since Unicode's `Alphabetic` and `White_Space` properties
/// hold of no character at once.
pub open spec fn alphabetic_char(c: char) -> bool {
    ascii_letter(c) || (c as u32 >= 128 && !whitespace_char(c) && alphabetic_ext(c))
}

/// An alphanumeric character: on ASCII exactly the letters and digits,
/// beyond ASCII whatever `char::is_alphanumeric` accepts — never a
/// whitespace character, since Unicode gives no character both a
/// numeric or alphabetic property and `White_Space`.
pub open spec fn alphanumeric_char(c: char) -> bool {
    ascii_letter(c) || digit_char(c) || (c as u32 >= 128 && !whitespace_char(c)
        && alphanumeric_ext(c))
}

/// A character that may open a symbol lexeme: alphabetic or `_`.
pub open spec fn symbol_start_char(c: char) -> bool {
    alphabetic_char(c) || c == '_'
}

/// A character that may continue a symbol lexeme: alphanumeric or `_`.
pub open spec fn symbol_char(c: char) -> bool {
    alphanumeric_char(c) || c == '_'
}

/// A character that may continue a number lexeme: a digit or `.`.
pub open spec fn number_char(c: char) -> bool {
    digit_char(c) || c == '.'
}

/// Tests membership in the operator-character set.
pub fn is_op_char(c: char) -> (r: bool)
    ensures
        r == op_char(c),
{
    match c {
        '.' | '*' | '+' | '-' | '/' | '~' | '=' | '^' | '%' | '$' | '?' | '&' | '|' | '<' | '>'
            | ':' | '@' | '!' | '#' => true,
        _ => false,
    }
}

/// Tests for a decimal digit.
pub fn is_digit_char(c: char) -> (r: bool)
    ensures
        r == digit_char(c),
{
    let u = c as u32;
    48 <= u && u <= 57
}

/// Tests for a `White_Space` character, by the same code-point list
/// that `char::is_whitespace` decides by.
pub fn is_whitespace_char(c: char) -> (r: bool)
    ensures
        r == whitespace_char(c),
{
    let u = c as u32;
    (9 <= u && u <= 13) || u == 0x20 || u == 0x85 || u == 0xA0 || u == 0x1680 || (0x2000 <= u
        && u <= 0x200A) || u == 0x2028 || u == 0x2029 || u == 0x202F || u == 0x205F || u == 0x3000
}

/// Relies on `char::is_alphabetic`: of the ASCII characters it accepts
/// exactly the letters; it accepts no `White_Space` character, the two
/// Unicode properties being disjoint; beyond ASCII its value is
/// otherwise the abstract class [`alphabetic_ext`].
#[verifier::external_body]
pub fn is_alphabetic_char(c: char) -> (r: bool)
    ensures
        r == (ascii_letter(c) || (c as u32 >= 128 && !whitespace_char(c) && alphabetic_ext(c))),
        r == alphabetic_char(c),
{
    c.is_alphabetic()
}

/// Relies on `char::is_alphanumeric`: of the ASCII characters it
/// accepts exactly the letters and digits; it accepts no `White_Space`
/// character, Unicode giving no character both properties; beyond ASCII
/// its value is otherwise the abstract class [`alphanumeric_ext`].
#[verifier::external_body]
pub fn is_alphanumeric_char(c: char) -> (r: bool)
    ensures
        r == (ascii_letter(c) || digit_char(c) || (c as u32 >= 128 && !whitespace_char(c)
            && alphanumeric_ext(c))),
        r == alphanumeric_char(c),
{
    c.is_alphanumeric()
}

/// Tests whether a character may open a symbol lexeme.
pub fn is_symbol_start_char(c: char) -> (r: bool)
    ensures
        r == symbol_start_char(c),
{
    is_alphabetic_char(c) || c == '_'
}

/// Tests whether a character may continue a symbol lexeme.
pub fn is_symbol_char(c: char) -> (r: bool)
    ensures
        r == symbol_char(c),
{
    is_alphanumeric_char(c) || c == '_'
}

/// Tests whether a character may continue a number lexeme.
pub fn is_number_char(c: char) -> (r: bool)
    ensures
        r == number_char(c),
{
    is_digit_char(c) || c == '.'
}

} // verus!
