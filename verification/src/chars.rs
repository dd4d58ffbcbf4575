//! Character classes used by the tokenizer, with executable classifiers
//! that agree with their specifications exactly.

use vstd::prelude::*;

verus! {

/// Whitespace skipped between tokens: space, tab, carriage return, newline.
pub open spec fn is_space(c: char) -> bool {
    c == ' ' || c == '\t' || c == '\r' || c == '\n'
}

/// A decimal digit `0`..`9`.
pub open spec fn is_digit(c: char) -> bool {
    '0' <= c && c <= '9'
}

/// A lowercase or uppercase ASCII letter.
pub open spec fn is_alpha(c: char) -> bool {
    ('a' <= c && c <= 'z') || ('A' <= c && c <= 'Z')
}

/// A character that may continue an identifier or a numeric suffix:
/// a letter, a digit, or an underscore.
pub open spec fn is_word(c: char) -> bool {
    c == '_' || is_digit(c) || is_alpha(c)
}

/// A character that may start an identifier: a letter or an underscore.
pub open spec fn is_ident_start(c: char) -> bool {
    c == '_' || is_alpha(c)
}

/// A hexadecimal digit.
pub open spec fn is_hex_digit(c: char) -> bool {
    is_digit(c) || ('a' <= c && c <= 'f') || ('A' <= c && c <= 'F')
}

/// A letter or a digit; this continues a numeric suffix once one has begun.
pub open spec fn is_alnum(c: char) -> bool {
    is_digit(c) || is_alpha(c)
}

/// A digit valid for the fixed base named by `t`: `b` for binary, `o` for
/// octal, `x` or `X` for hexadecimal.
pub open spec fn is_base_digit(t: char, c: char) -> bool {
    if t == 'b' {
        c == '0' || c == '1'
    } else if t == 'o' {
        '0' <= c && c <= '7'
    } else {
        is_hex_digit(c)
    }
}

pub fn space(c: char) -> (r: bool)
    ensures
        r == is_space(c),
{
    c == ' ' || c == '\t' || c == '\r' || c == '\n'
}

pub fn digit(c: char) -> (r: bool)
    ensures
        r == is_digit(c),
{
    '0' <= c && c <= '9'
}

pub fn alpha(c: char) -> (r: bool)
    ensures
        r == is_alpha(c),
{
    ('a' <= c && c <= 'z') || ('A' <= c && c <= 'Z')
}

pub fn word(c: char) -> (r: bool)
    ensures
        r == is_word(c),
{
    c == '_' || digit(c) || alpha(c)
}

pub fn ident_start(c: char) -> (r: bool)
    ensures
        r == is_ident_start(c),
{
    c == '_' || alpha(c)
}

pub fn hex_digit(c: char) -> (r: bool)
    ensures
        r == is_hex_digit(c),
{
    digit(c) || ('a' <= c && c <= 'f') || ('A' <= c && c <= 'F')
}

pub fn alnum(c: char) -> (r: bool)
    ensures
        r == is_alnum(c),
{
    digit(c) || alpha(c)
}

pub fn base_digit(t: char, c: char) -> (r: bool)
    ensures
        r == is_base_digit(t, c),
{
    if t == 'b' {
        c == '0' || c == '1'
    } else if t == 'o' {
        '0' <= c && c <= '7'
    } else {
        hex_digit(c)
    }
}

/// Two characters with the same code point are the same character.
pub proof fn lemma_char_eq_by_code(c1: char, c2: char)
    requires
        c1 as u32 == c2 as u32,
    ensures
        c1 == c2,
{
}

/// The numeric value of a hexadecimal digit.
pub open spec fn hex_value(c: char) -> u32
    recommends
        is_hex_digit(c),
{
    if is_digit(c) {
        (c as u32 - '0' as u32) as u32
    } else if 'a' <= c && c <= 'f' {
        (c as u32 - 'a' as u32 + 10) as u32
    } else {
        (c as u32 - 'A' as u32 + 10) as u32
    }
}

pub fn hex_digit_value(c: char) -> (v: u32)
    requires
        is_hex_digit(c),
    ensures
        v == hex_value(c),
        v < 16,
{
    if '0' <= c && c <= '9' {
        c as u32 - '0' as u32
    } else if 'a' <= c && c <= 'f' {
        c as u32 - 'a' as u32 + 10
    } else {
        c as u32 - 'A' as u32 + 10
    }
}

} // verus!
