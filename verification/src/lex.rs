//! The plain tokenizer: like `Lexer` but with no keyword table — every
//! scanned name comes back as an identifier token — and with an
//! option-style end of stream instead of a sentinel token.

use vstd::prelude::*;

use crate::LexError;
use crate::chars::digit;
use crate::chars::ident_start;
use crate::chars::word;
use crate::scan::collect_range;
use crate::scan::lemma_str_scan_end;
use crate::scan::lemma_word_end;
use crate::scan::scan_base_digits;
use crate::scan::scan_number;
use crate::scan::scan_string;
use crate::scan::scan_word;
use crate::scan::skip_trivia_exec;
use crate::scan::string_from_chars;
use crate::token::SpecToken;
use crate::token::lex_step;
use crate::token::lit_string;
use crate::token::token_text;
use crate::token::two_char_token;
use vstd::string::StrSliceExecFns;
use vstd::string::StringExecFns;

verus! {

/// A token of the plain tokenizer. `Char` carries a single character that
/// no other case claimed; the end of the stream is signalled by the
/// tokenizer itself, not by a token.
#[derive(Debug, Clone)]
pub enum Token {
    And,
    Or,
    Equal,
    NotEqual,
    LessEqual,
    GreaterEqual,
    AssignPlus,
    AssignMinus,
    AssignMultiply,
    AssignDivide,
    AssignMod,
    Increment,
    Decrement,
    Arrow,
    Ident(String),
    Binary { v: String, t: String },
    Octal { v: String, t: String },
    Decimal { v: String, t: String },
    Hexadecimal { v: String, t: String },
    Float { v: String, t: String },
    StringLiteral(String),
    Char(char),
}

impl View for Token {
    type V = SpecToken;

    open spec fn view(&self) -> SpecToken {
        match self {
            Token::And => SpecToken::And,
            Token::Or => SpecToken::Or,
            Token::Equal => SpecToken::Equal,
            Token::NotEqual => SpecToken::NotEqual,
            Token::LessEqual => SpecToken::LessEqual,
            Token::GreaterEqual => SpecToken::GreaterEqual,
            Token::AssignPlus => SpecToken::AssignPlus,
            Token::AssignMinus => SpecToken::AssignMinus,
            Token::AssignMultiply => SpecToken::AssignMultiply,
            Token::AssignDivide => SpecToken::AssignDivide,
            Token::AssignMod => SpecToken::AssignMod,
            Token::Increment => SpecToken::Increment,
            Token::Decrement => SpecToken::Decrement,
            Token::Arrow => SpecToken::Arrow,
            Token::Ident(s) => SpecToken::Ident(s@),
            Token::Binary { v, t } => SpecToken::Binary { v: v@, t: t@ },
            Token::Octal { v, t } => SpecToken::Octal { v: v@, t: t@ },
            Token::Decimal { v, t } => SpecToken::Decimal { v: v@, t: t@ },
            Token::Hexadecimal { v, t } => SpecToken::Hexadecimal { v: v@, t: t@ },
            Token::Float { v, t } => SpecToken::Float { v: v@, t: t@ },
            Token::StringLiteral(s) => SpecToken::StringLiteral(s@),
            Token::Char(c) => SpecToken::Term(*c),
        }
    }
}

impl Token {
    /// The token's display text.
    pub fn text(&self) -> (r: String)
        ensures
            r@ == token_text(self@),
    {
        match self {
            Token::And => lit_string("<And>"),
            Token::Or => lit_string("<Or>"),
            Token::Equal => lit_string("<Equal>"),
            Token::NotEqual => lit_string("<NotEqual>"),
            Token::LessEqual => lit_string("<LessEqual>"),
            Token::GreaterEqual => lit_string("<GreaterEqual>"),
            Token::AssignPlus => lit_string("<AssignPlus>"),
            Token::AssignMinus => lit_string("<AssignMinus>"),
            Token::AssignMultiply => lit_string("<AssignMultiply>"),
            Token::AssignDivide => lit_string("<AssignDivide>"),
            Token::AssignMod => lit_string("<AssignMod>"),
            Token::Increment => lit_string("<Increment>"),
            Token::Decrement => lit_string("<Decrement>"),
            Token::Arrow => lit_string("<Arrow>"),
            Token::Ident(s) => {
                let mut r = lit_string("<Ident=\"");
                r.append(s.as_str());
                r.append("\">");
                r
            },
            Token::Binary { v, t } => {
                let mut r = lit_string("<Binary=");
                r.append(v.as_str());
                r.append(" trail=\"");
                r.append(t.as_str());
                r.append("\">");
                r
            },
            Token::Octal { v, t } => {
                let mut r = lit_string("<Octal=");
                r.append(v.as_str());
                r.append(" trail=\"");
                r.append(t.as_str());
                r.append("\">");
                r
            },
            Token::Decimal { v, t } => {
                let mut r = lit_string("<Decimal=");
                r.append(v.as_str());
                r.append(" trail=\"");
                r.append(t.as_str());
                r.append("\">");
                r
            },
            Token::Hexadecimal { v, t } => {
                let mut r = lit_string("<Hexadecimal=");
                r.append(v.as_str());
                r.append(" trail=\"");
                r.append(t.as_str());
                r.append("\">");
                r
            },
            Token::Float { v, t } => {
                let mut r = lit_string("<Float=");
                r.append(v.as_str());
                r.append(" trail=\"");
                r.append(t.as_str());
                r.append("\">");
                r
            },
            Token::StringLiteral(s) => {
                let mut r = lit_string("<String=\"");
                r.append(s.as_str());
                r.append("\">");
                r
            },
            Token::Char(c) => {
                let mut r = lit_string("<");
                crate::scan::push_char(&mut r, *c);
                r.append(">");
                proof {
                    assert("<"@.push(*c) =~= "<"@ + seq![*c]);
                }
                r
            },
        }
    }
}

/// The two-character operator table, executably.
fn two_char(c1: char, c2: char) -> (r: Option<Token>)
    ensures
        match r {
            Some(t) => two_char_token(c1, c2) == Some(t@),
            None => two_char_token(c1, c2) is None,
        },
{
    match (c1, c2) {
        ('&', '&') => Some(Token::And),
        ('|', '|') => Some(Token::Or),
        ('=', '=') => Some(Token::Equal),
        ('!', '=') => Some(Token::NotEqual),
        ('<', '=') => Some(Token::LessEqual),
        ('>', '=') => Some(Token::GreaterEqual),
        ('+', '+') => Some(Token::Increment),
        ('-', '-') => Some(Token::Decrement),
        ('+', '=') => Some(Token::AssignPlus),
        ('-', '=') => Some(Token::AssignMinus),
        ('*', '=') => Some(Token::AssignMultiply),
        ('/', '=') => Some(Token::AssignDivide),
        ('%', '=') => Some(Token::AssignMod),
        ('-', '>') => Some(Token::Arrow),
        _ => None,
    }
}

/// The plain tokenizer.
pub struct Lex {
    input: Vec<char>,
    pos: usize,
    warnings: u64,
}

impl Lex {
    /// The input character sequence.
    pub closed spec fn src(self) -> Seq<char> {
        self.input@
    }

    /// The position of the first character no finished token has consumed.
    pub closed spec fn cursor(self) -> int {
        self.pos as int
    }

    /// How many non-fatal diagnostics scanning has raised so far.
    pub closed spec fn warning_count(self) -> int {
        self.warnings as int
    }

    /// The cursor lies within the input, and warnings never outnumber the
    /// characters consumed.
    pub closed spec fn wf(self) -> bool {
        self.pos <= self.input@.len() && self.warnings <= self.pos
    }

    /// A tokenizer positioned at the start of the given input.
    pub fn new(input: Vec<char>) -> (r: Lex)
        ensures
            r.wf(),
            r.src() == input@,
            r.cursor() == 0,
            r.warning_count() == 0,
    {
        Lex { input, pos: 0, warnings: 0 }
    }

    /// How many non-fatal diagnostics scanning has raised so far.
    pub fn warnings(&self) -> (r: u64)
        ensures
            r == self.warning_count(),
    {
        self.warnings
    }

    /// Produces the next token and advances past it; `Ok(None)` signals
    /// the end of the input, again on every later call. A fatal lexical
    /// error is returned as `Err` and consumes nothing.
    pub fn next_token(&mut self) -> (r: Result<Option<Token>, LexError>)
        requires
            old(self).wf(),
        ensures
            final(self).wf(),
            final(self).src() == old(self).src(),
            match lex_step(old(self).src(), old(self).cursor(), false) {
                Ok(st) => final(self).cursor() == st.end && final(self).warning_count() == old(
                    self,
                ).warning_count() + (
                if st.warn {
                    1int
                } else {
                    0int
                }) && (if st.token is EndOfFile {
                    r == Ok::<Option<Token>, LexError>(None)
                } else {
                    r matches Ok(Some(t)) && t@ == st.token
                }),
                Err(e) => r == Err::<Option<Token>, LexError>(e) && final(self).cursor() == old(
                    self,
                ).cursor() && final(self).warning_count() == old(self).warning_count(),
            },
    {
        let ghost s = self.input@;
        let n = self.input.len();
        let j = match skip_trivia_exec(&self.input, self.pos) {
            Ok(j) => j,
            Err(e) => {
                return Err(e);
            },
        };
        if j >= n {
            self.pos = n;
            return Ok(None);
        }
        let c = self.input[j];
        if j + 1 < n {
            match two_char(c, self.input[j + 1]) {
                Some(t) => {
                    self.pos = j + 2;
                    return Ok(Some(t));
                },
                None => {},
            }
        }
        if ident_start(c) {
            let e = scan_word(&self.input, j + 1);
            proof {
                lemma_word_end(s, j + 1);
            }
            let name = collect_range(&self.input, j, e);
            self.pos = e;
            return Ok(Some(Token::Ident(string_from_chars(&name))));
        }
        if c == '0' && j + 1 < n {
            let t = self.input[j + 1];
            if t == 'b' || t == 'o' || t == 'x' || t == 'X' {
                let d = scan_base_digits(&self.input, j + 2, t);
                let value = string_from_chars(&collect_range(&self.input, j + 2, d));
                let mut end = d;
                let trail = if d < n && word(self.input[d]) {
                    let w = scan_word(&self.input, d);
                    end = w;
                    string_from_chars(&collect_range(&self.input, d, w))
                } else {
                    proof {
                        assert(Seq::<char>::empty() =~= s.subrange(d as int, d as int));
                    }
                    String::new()
                };
                self.pos = end;
                let tok = if t == 'b' {
                    Token::Binary { v: value, t: trail }
                } else if t == 'o' {
                    Token::Octal { v: value, t: trail }
                } else {
                    Token::Hexadecimal { v: value, t: trail }
                };
                return Ok(Some(tok));
            }
        }
        let dec_opens = digit(c) || (c == '.' && j + 1 < n && digit(self.input[j + 1]));
        if dec_opens {
            let p = scan_number(&self.input, j);
            if p.warn {
                proof {
                    assert(self.warnings < usize::MAX as u64);
                }
                self.warnings = self.warnings + 1;
            }
            self.pos = p.end;
            let value = string_from_chars(&p.value);
            let trail = string_from_chars(&p.trail);
            let tok = if p.is_float {
                Token::Float { v: value, t: trail }
            } else {
                Token::Decimal { v: value, t: trail }
            };
            return Ok(Some(tok));
        }
        if c == '"' {
            match scan_string(&self.input, j + 1) {
                Ok((text, end)) => {
                    proof {
                        lemma_str_scan_end(s, j + 1, crate::scan::StrState::Plain, Seq::empty());
                    }
                    self.pos = end;
                    return Ok(Some(Token::StringLiteral(string_from_chars(&text))));
                },
                Err(e) => {
                    return Err(e);
                },
            }
        }
        self.pos = j + 1;
        Ok(Some(Token::Char(c)))
    }
}

} // verus!
