//! The keyword-aware tokenizer: a pull interface that yields one token per
//! call and an explicit, repeatable end-of-stream token after the last one.

use vstd::prelude::*;

use crate::LexError;
use crate::chars::digit;
use crate::chars::ident_start;
use crate::chars::word;
use crate::scan::collect_range;
use crate::scan::lemma_str_scan_end;
use crate::scan::lemma_word_end;
use crate::scan::scan_base_digits;
use crate::scan::scan_number;
use crate::scan::scan_string;
use crate::scan::scan_word;
use crate::scan::skip_trivia_exec;
use crate::scan::string_from_chars;
use crate::token::Token;
use crate::token::keyword_token;
use crate::token::lex_step;
use crate::token::two_char_token;

verus! {

/// The two-character operator table, executably.
fn two_char(c1: char, c2: char) -> (r: Option<Token>)
    ensures
        match r {
            Some(t) => two_char_token(c1, c2) == Some(t@),
            None => two_char_token(c1, c2) is None,
        },
{
    match (c1, c2) {
        ('&', '&') => Some(Token::And),
        ('|', '|') => Some(Token::Or),
        ('=', '=') => Some(Token::Equal),
        ('!', '=') => Some(Token::NotEqual),
        ('<', '=') => Some(Token::LessEqual),
        ('>', '=') => Some(Token::GreaterEqual),
        ('+', '+') => Some(Token::Increment),
        ('-', '-') => Some(Token::Decrement),
        ('+', '=') => Some(Token::AssignPlus),
        ('-', '=') => Some(Token::AssignMinus),
        ('*', '=') => Some(Token::AssignMultiply),
        ('/', '=') => Some(Token::AssignDivide),
        ('%', '=') => Some(Token::AssignMod),
        ('-', '>') => Some(Token::Arrow),
        _ => None,
    }
}

/// The keyword-aware tokenizer. It owns the input characters and a cursor;
/// at most the one character under the cursor has been examined but not
/// yet consumed by a finished token.
pub struct Lexer {
    input: Vec<char>,
    pos: usize,
    warnings: u64,
}

impl Lexer {
    /// The input character sequence.
    pub closed spec fn src(self) -> Seq<char> {
        self.input@
    }

    /// The position of the first character no finished token has consumed.
    pub closed spec fn cursor(self) -> int {
        self.pos as int
    }

    /// How many non-fatal diagnostics scanning has raised so far.
    pub closed spec fn warning_count(self) -> int {
        self.warnings as int
    }

    /// The cursor lies within the input, and warnings never outnumber the
    /// characters consumed.
    pub closed spec fn wf(self) -> bool {
        self.pos <= self.input@.len() && self.warnings <= self.pos
    }

    /// A tokenizer positioned at the start of the given input.
    pub fn new(input: Vec<char>) -> (r: Lexer)
        ensures
            r.wf(),
            r.src() == input@,
            r.cursor() == 0,
            r.warning_count() == 0,
    {
        Lexer { input, pos: 0, warnings: 0 }
    }

    /// How many non-fatal diagnostics scanning has raised so far.
    pub fn warnings(&self) -> (r: u64)
        ensures
            r == self.warning_count(),
    {
        self.warnings
    }

    /// Produces the next token and advances past it. At the end of the
    /// input the result is `EndOfFile`, again on every later call. A fatal
    /// lexical error is returned as `Err` and consumes nothing.
    pub fn next_token(&mut self) -> (r: Result<Token, LexError>)
        requires
            old(self).wf(),
        ensures
            final(self).wf(),
            final(self).src() == old(self).src(),
            match lex_step(old(self).src(), old(self).cursor(), true) {
                Ok(st) => r matches Ok(t) && t@ == st.token && final(self).cursor() == st.end
                    && final(self).warning_count() == old(self).warning_count() + (
                if st.warn {
                    1int
                } else {
                    0int
                }),
                Err(e) => r == Err::<Token, LexError>(e) && final(self).cursor() == old(
                    self,
                ).cursor() && final(self).warning_count() == old(self).warning_count(),
            },
    {
        let ghost s = self.input@;
        let n = self.input.len();
        let j = match skip_trivia_exec(&self.input, self.pos) {
            Ok(j) => j,
            Err(e) => {
                return Err(e);
            },
        };
        if j >= n {
            self.pos = n;
            return Ok(Token::EndOfFile);
        }
        let c = self.input[j];
        if j + 1 < n {
            match two_char(c, self.input[j + 1]) {
                Some(t) => {
                    self.pos = j + 2;
                    return Ok(t);
                },
                None => {},
            }
        }
        if ident_start(c) {
            let e = scan_word(&self.input, j + 1);
            proof {
                lemma_word_end(s, j + 1);
            }
            let name = collect_range(&self.input, j, e);
            let tok = match keyword_token(&name) {
                Some(k) => k,
                None => Token::Ident(string_from_chars(&name)),
            };
            self.pos = e;
            return Ok(tok);
        }
        if c == '0' && j + 1 < n {
            let t = self.input[j + 1];
            if t == 'b' || t == 'o' || t == 'x' || t == 'X' {
                let d = scan_base_digits(&self.input, j + 2, t);
                let value = string_from_chars(&collect_range(&self.input, j + 2, d));
                let mut end = d;
                let trail = if d < n && word(self.input[d]) {
                    let w = scan_word(&self.input, d);
                    end = w;
                    string_from_chars(&collect_range(&self.input, d, w))
                } else {
                    proof {
                        assert(Seq::<char>::empty() =~= s.subrange(d as int, d as int));
                    }
                    String::new()
                };
                self.pos = end;
                let tok = if t == 'b' {
                    Token::Binary { v: value, t: trail }
                } else if t == 'o' {
                    Token::Octal { v: value, t: trail }
                } else {
                    Token::Hexadecimal { v: value, t: trail }
                };
                return Ok(tok);
            }
        }
        let dec_opens = digit(c) || (c == '.' && j + 1 < n && digit(self.input[j + 1]));
        if dec_opens {
            let p = scan_number(&self.input, j);
            if p.warn {
                proof {
                    assert(self.warnings < usize::MAX as u64);
                }
                self.warnings = self.warnings + 1;
            }
            self.pos = p.end;
            let value = string_from_chars(&p.value);
            let trail = string_from_chars(&p.trail);
            let tok = if p.is_float {
                Token::Float { v: value, t: trail }
            } else {
                Token::Decimal { v: value, t: trail }
            };
            return Ok(tok);
        }
        if c == '"' {
            match scan_string(&self.input, j + 1) {
                Ok((text, end)) => {
                    proof {
                        lemma_str_scan_end(s, j + 1, crate::scan::StrState::Plain, Seq::empty());
                    }
                    self.pos = end;
                    return Ok(Token::StringLiteral(string_from_chars(&text)));
                },
                Err(e) => {
                    return Err(e);
                },
            }
        }
        self.pos = j + 1;
        Ok(Token::Term(c))
    }
}

} // verus!
