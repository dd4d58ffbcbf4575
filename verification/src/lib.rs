//! A lexical analyzer for a small C-like language.
//!
//! The library turns a sequence of characters into typed tokens: identifiers
//! and keywords, integer literals in four bases, floating-point literals,
//! escape-decoded string literals, two-character operators, and
//! single-character terminals. A minimal parser consumes the token stream
//! and recognizes one declaration form.

use vstd::prelude::*;

pub mod chars;
pub mod scan;
pub mod token;
pub mod lexer;
pub mod lex;
pub mod parser;
pub mod laws;

verus! {

/// A fatal lexical error; tokenization stops when one arises.
#[derive(Clone, Copy, Debug, PartialEq, Eq, Structural)]
pub enum LexError {
    /// A block comment was still open at the end of the input.
    UnclosedComment,
    /// A backslash escape in a string literal used an unrecognized character.
    InvalidEscape,
    /// A character inside a `\x`, `\u` or `\U` escape was not a hex digit.
    InvalidHexDigit,
    /// A `\x`, `\u` or `\U` escape named a value outside the Unicode scalar range.
    InvalidCodePoint,
}

} // verus!
