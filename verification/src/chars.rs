//! Character classes used by the grammar.
//!
//! Whitespace is the Unicode `White_Space` set (the host predicate the
//! lexical skipper is specified against); identifiers are ASCII:
//! `[A-Za-z_][A-Za-z0-9_]*`.

use vstd::prelude::*;

verus! {

/// The Unicode `White_Space` code points.
pub open spec fn is_ws_char(c: char) -> bool {
    let u = c as u32;
    u == 0x20 || u == 0x09 || u == 0x0A || u == 0x0B || u == 0x0C || u == 0x0D || u == 0x85
        || u == 0xA0 || u == 0x1680 || (0x2000 <= u && u <= 0x200A) || u == 0x2028 || u == 0x2029
        || u == 0x202F || u == 0x205F || u == 0x3000
}

/// First character of an identifier: a letter or `_`.
pub open spec fn is_ident_start_char(c: char) -> bool {
    let u = c as u32;
    u == 0x5F || (0x41 <= u && u <= 0x5A) || (0x61 <= u && u <= 0x7A)
}

/// Continuation character of an identifier: a letter, a digit or `_`.
pub open spec fn is_ident_char(c: char) -> bool {
    is_ident_start_char(c) || is_digit_char(c)
}

/// An ASCII decimal digit.
pub open spec fn is_digit_char(c: char) -> bool {
    let u = c as u32;
    0x30 <= u && u <= 0x39
}

/// Token character inside a type expression: identifier characters plus `?`
/// (the optional marker is carved off the token afterwards).
pub open spec fn is_type_token_char(c: char) -> bool {
    is_ident_char(c) || c == '?'
}

pub fn ws_char(c: char) -> (b: bool)
    ensures
        b == is_ws_char(c),
{
    let u = c as u32;
    u == 0x20 || u == 0x09 || u == 0x0A || u == 0x0B || u == 0x0C || u == 0x0D || u == 0x85
        || u == 0xA0 || u == 0x1680 || (0x2000 <= u && u <= 0x200A) || u == 0x2028 || u == 0x2029
        || u == 0x202F || u == 0x205F || u == 0x3000
}

pub fn ident_start_char(c: char) -> (b: bool)
    ensures
        b == is_ident_start_char(c),
{
    let u = c as u32;
    u == 0x5F || (0x41 <= u && u <= 0x5A) || (0x61 <= u && u <= 0x7A)
}

pub fn ident_char(c: char) -> (b: bool)
    ensures
        b == is_ident_char(c),
{
    ident_start_char(c) || digit_char(c)
}

pub fn digit_char(c: char) -> (b: bool)
    ensures
        b == is_digit_char(c),
{
    let u = c as u32;
    0x30 <= u && u <= 0x39
}

pub fn type_token_char(c: char) -> (b: bool)
    ensures
        b == is_type_token_char(c),
{
    ident_char(c) || c == '?'
}

} // verus!
