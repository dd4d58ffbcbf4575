//! The token model: the keyword-aware token type produced by `Lexer`, the
//! mathematical token values that all contracts speak about, and the
//! dispatch that classifies the token beginning at a given position.

use vstd::prelude::*;

use crate::LexError;
use crate::chars::is_digit;
use crate::chars::is_ident_start;
use crate::chars::is_word;
use crate::scan::StrScan;
use crate::scan::base_end;
use crate::scan::num_token;
use crate::scan::skip_trivia;
use crate::scan::str_token;
use crate::scan::word_end;
use vstd::string::StrSliceExecFns;
use vstd::string::StringExecFns;

verus! {

/// The mathematical value of a token: what the executable token types view
/// as. Literal text appears as character sequences.
pub enum SpecToken {
    And,
    Or,
    Equal,
    NotEqual,
    LessEqual,
    GreaterEqual,
    AssignPlus,
    AssignMinus,
    AssignMultiply,
    AssignDivide,
    AssignMod,
    Increment,
    Decrement,
    Arrow,
    If,
    Else,
    Do,
    While,
    For,
    U8,
    U16,
    U32,
    U64,
    Usize,
    I8,
    I16,
    I32,
    I64,
    Isize,
    Ident(Seq<char>),
    Binary { v: Seq<char>, t: Seq<char> },
    Octal { v: Seq<char>, t: Seq<char> },
    Decimal { v: Seq<char>, t: Seq<char> },
    Hexadecimal { v: Seq<char>, t: Seq<char> },
    Float { v: Seq<char>, t: Seq<char> },
    StringLiteral(Seq<char>),
    Term(char),
    EndOfFile,
}

/// A token of the keyword-aware tokenizer. Numeric literals carry their
/// significant characters (`v`) and an unparsed trailing suffix (`t`);
/// string literals carry their escape-decoded text; `Term` carries a
/// single character that no other case claimed; `EndOfFile` is the
/// end-of-stream sentinel.
#[derive(Debug, Clone)]
pub enum Token {
    And,
    Or,
    Equal,
    NotEqual,
    LessEqual,
    GreaterEqual,
    AssignPlus,
    AssignMinus,
    AssignMultiply,
    AssignDivide,
    AssignMod,
    Increment,
    Decrement,
    Arrow,
    If,
    Else,
    Do,
    While,
    For,
    U8,
    U16,
    U32,
    U64,
    Usize,
    I8,
    I16,
    I32,
    I64,
    Isize,
    Ident(String),
    Binary { v: String, t: String },
    Octal { v: String, t: String },
    Decimal { v: String, t: String },
    Hexadecimal { v: String, t: String },
    Float { v: String, t: String },
    StringLiteral(String),
    Term(char),
    EndOfFile,
}

impl View for Token {
    type V = SpecToken;

    open spec fn view(&self) -> SpecToken {
        match self {
            Token::And => SpecToken::And,
            Token::Or => SpecToken::Or,
            Token::Equal => SpecToken::Equal,
            Token::NotEqual => SpecToken::NotEqual,
            Token::LessEqual => SpecToken::LessEqual,
            Token::GreaterEqual => SpecToken::GreaterEqual,
            Token::AssignPlus => SpecToken::AssignPlus,
            Token::AssignMinus => SpecToken::AssignMinus,
            Token::AssignMultiply => SpecToken::AssignMultiply,
            Token::AssignDivide => SpecToken::AssignDivide,
            Token::AssignMod => SpecToken::AssignMod,
            Token::Increment => SpecToken::Increment,
            Token::Decrement => SpecToken::Decrement,
            Token::Arrow => SpecToken::Arrow,
            Token::If => SpecToken::If,
            Token::Else => SpecToken::Else,
            Token::Do => SpecToken::Do,
            Token::While => SpecToken::While,
            Token::For => SpecToken::For,
            Token::U8 => SpecToken::U8,
            Token::U16 => SpecToken::U16,
            Token::U32 => SpecToken::U32,
            Token::U64 => SpecToken::U64,
            Token::Usize => SpecToken::Usize,
            Token::I8 => SpecToken::I8,
            Token::I16 => SpecToken::I16,
            Token::I32 => SpecToken::I32,
            Token::I64 => SpecToken::I64,
            Token::Isize => SpecToken::Isize,
            Token::Ident(s) => SpecToken::Ident(s@),
            Token::Binary { v, t } => SpecToken::Binary { v: v@, t: t@ },
            Token::Octal { v, t } => SpecToken::Octal { v: v@, t: t@ },
            Token::Decimal { v, t } => SpecToken::Decimal { v: v@, t: t@ },
            Token::Hexadecimal { v, t } => SpecToken::Hexadecimal { v: v@, t: t@ },
            Token::Float { v, t } => SpecToken::Float { v: v@, t: t@ },
            Token::StringLiteral(s) => SpecToken::StringLiteral(s@),
            Token::Term(c) => SpecToken::Term(*c),
            Token::EndOfFile => SpecToken::EndOfFile,
        }
    }
}

// ----------------------------------------------------------------------
// Rendering
// ----------------------------------------------------------------------

/// The display text of a token: its kind in angle brackets, with literal
/// payloads spelled out.
pub open spec fn token_text(t: SpecToken) -> Seq<char> {
    match t {
        SpecToken::And => "<And>"@,
        SpecToken::Or => "<Or>"@,
        SpecToken::Equal => "<Equal>"@,
        SpecToken::NotEqual => "<NotEqual>"@,
        SpecToken::LessEqual => "<LessEqual>"@,
        SpecToken::GreaterEqual => "<GreaterEqual>"@,
        SpecToken::AssignPlus => "<AssignPlus>"@,
        SpecToken::AssignMinus => "<AssignMinus>"@,
        SpecToken::AssignMultiply => "<AssignMultiply>"@,
        SpecToken::AssignDivide => "<AssignDivide>"@,
        SpecToken::AssignMod => "<AssignMod>"@,
        SpecToken::Increment => "<Increment>"@,
        SpecToken::Decrement => "<Decrement>"@,
        SpecToken::Arrow => "<Arrow>"@,
        SpecToken::If => "<If>"@,
        SpecToken::Else => "<Else>"@,
        SpecToken::Do => "<Do>"@,
        SpecToken::While => "<While>"@,
        SpecToken::For => "<For>"@,
        SpecToken::U8 => "<U8>"@,
        SpecToken::U16 => "<U16>"@,
        SpecToken::U32 => "<U32>"@,
        SpecToken::U64 => "<U64>"@,
        SpecToken::Usize => "<Usize>"@,
        SpecToken::I8 => "<I8>"@,
        SpecToken::I16 => "<I16>"@,
        SpecToken::I32 => "<I32>"@,
        SpecToken::I64 => "<I64>"@,
        SpecToken::Isize => "<Isize>"@,
        SpecToken::Ident(s) => "<Ident=\""@ + s + "\">"@,
        SpecToken::Binary { v, t } => "<Binary="@ + v + " trail=\""@ + t + "\">"@,
        SpecToken::Octal { v, t } => "<Octal="@ + v + " trail=\""@ + t + "\">"@,
        SpecToken::Decimal { v, t } => "<Decimal="@ + v + " trail=\""@ + t + "\">"@,
        SpecToken::Hexadecimal { v, t } => "<Hexadecimal="@ + v + " trail=\""@ + t + "\">"@,
        SpecToken::Float { v, t } => "<Float="@ + v + " trail=\""@ + t + "\">"@,
        SpecToken::StringLiteral(s) => "<String=\""@ + s + "\">"@,
        SpecToken::Term(c) => "<"@ + seq![c] + ">"@,
        SpecToken::EndOfFile => "<EndOfFile>"@,
    }
}

/// A fresh `String` holding the given literal text.
pub fn lit_string(l: &str) -> (r: String)
    ensures
        r@ == l@,
{
    String::from_str(l)
}

impl Token {
    /// The token's display text.
    pub fn text(&self) -> (r: String)
        ensures
            r@ == token_text(self@),
    {
        match self {
            Token::And => lit_string("<And>"),
            Token::Or => lit_string("<Or>"),
            Token::Equal => lit_string("<Equal>"),
            Token::NotEqual => lit_string("<NotEqual>"),
            Token::LessEqual => lit_string("<LessEqual>"),
            Token::GreaterEqual => lit_string("<GreaterEqual>"),
            Token::AssignPlus => lit_string("<AssignPlus>"),
            Token::AssignMinus => lit_string("<AssignMinus>"),
            Token::AssignMultiply => lit_string("<AssignMultiply>"),
            Token::AssignDivide => lit_string("<AssignDivide>"),
            Token::AssignMod => lit_string("<AssignMod>"),
            Token::Increment => lit_string("<Increment>"),
            Token::Decrement => lit_string("<Decrement>"),
            Token::Arrow => lit_string("<Arrow>"),
            Token::If => lit_string("<If>"),
            Token::Else => lit_string("<Else>"),
            Token::Do => lit_string("<Do>"),
            Token::While => lit_string("<While>"),
            Token::For => lit_string("<For>"),
            Token::U8 => lit_string("<U8>"),
            Token::U16 => lit_string("<U16>"),
            Token::U32 => lit_string("<U32>"),
            Token::U64 => lit_string("<U64>"),
            Token::Usize => lit_string("<Usize>"),
            Token::I8 => lit_string("<I8>"),
            Token::I16 => lit_string("<I16>"),
            Token::I32 => lit_string("<I32>"),
            Token::I64 => lit_string("<I64>"),
            Token::Isize => lit_string("<Isize>"),
            Token::Ident(s) => {
                let mut r = lit_string("<Ident=\"");
                r.append(s.as_str());
                r.append("\">");
                r
            },
            Token::Binary { v, t } => {
                let mut r = lit_string("<Binary=");
                r.append(v.as_str());
                r.append(" trail=\"");
                r.append(t.as_str());
                r.append("\">");
                r
            },
            Token::Octal { v, t } => {
                let mut r = lit_string("<Octal=");
                r.append(v.as_str());
                r.append(" trail=\"");
                r.append(t.as_str());
                r.append("\">");
                r
            },
            Token::Decimal { v, t } => {
                let mut r = lit_string("<Decimal=");
                r.append(v.as_str());
                r.append(" trail=\"");
                r.append(t.as_str());
                r.append("\">");
                r
            },
            Token::Hexadecimal { v, t } => {
                let mut r = lit_string("<Hexadecimal=");
                r.append(v.as_str());
                r.append(" trail=\"");
                r.append(t.as_str());
                r.append("\">");
                r
            },
            Token::Float { v, t } => {
                let mut r = lit_string("<Float=");
                r.append(v.as_str());
                r.append(" trail=\"");
                r.append(t.as_str());
                r.append("\">");
                r
            },
            Token::StringLiteral(s) => {
                let mut r = lit_string("<String=\"");
                r.append(s.as_str());
                r.append("\">");
                r
            },
            Token::Term(c) => {
                let mut r = lit_string("<");
                crate::scan::push_char(&mut r, *c);
                r.append(">");
                proof {
                    assert("<"@.push(*c) =~= "<"@ + seq![*c]);
                }
                r
            },
            Token::EndOfFile => lit_string("<EndOfFile>"),
        }
    }
}

// ----------------------------------------------------------------------
// Keywords
// ----------------------------------------------------------------------

/// The keyword that a finished identifier spelling stands for, if any:
/// the control-flow words and the primitive type names.
pub open spec fn keyword_spec(name: Seq<char>) -> Option<SpecToken> {
    if name == seq!['i', 'f'] {
        Some(SpecToken::If)
    } else if name == seq!['e', 'l', 's', 'e'] {
        Some(SpecToken::Else)
    } else if name == seq!['d', 'o'] {
        Some(SpecToken::Do)
    } else if name == seq!['w', 'h', 'i', 'l', 'e'] {
        Some(SpecToken::While)
    } else if name == seq!['f', 'o', 'r'] {
        Some(SpecToken::For)
    } else if name == seq!['u', '8'] {
        Some(SpecToken::U8)
    } else if name == seq!['u', '1', '6'] {
        Some(SpecToken::U16)
    } else if name == seq!['u', '3', '2'] {
        Some(SpecToken::U32)
    } else if name == seq!['u', '6', '4'] {
        Some(SpecToken::U64)
    } else if name == seq!['u', 's', 'i', 'z', 'e'] {
        Some(SpecToken::Usize)
    } else if name == seq!['i', '8'] {
        Some(SpecToken::I8)
    } else if name == seq!['i', '1', '6'] {
        Some(SpecToken::I16)
    } else if name == seq!['i', '3', '2'] {
        Some(SpecToken::I32)
    } else if name == seq!['i', '6', '4'] {
        Some(SpecToken::I64)
    } else if name == seq!['i', 's', 'i', 'z', 'e'] {
        Some(SpecToken::Isize)
    } else {
        None
    }
}

/// Looks a finished identifier spelling up in the keyword table.
pub fn keyword_token(name: &Vec<char>) -> (r: Option<Token>)
    ensures
        match r {
            Some(t) => keyword_spec(name@) == Some(t@),
            None => keyword_spec(name@) is None,
        },
{
    let n = name.len();
    if n == 2 {
        let c0 = name[0];
        let c1 = name[1];
        if c0 == 'i' && c1 == 'f' {
            proof {
                assert(name@ =~= seq!['i', 'f']);
            }
            return Some(Token::If);
        }
        if c0 == 'd' && c1 == 'o' {
            proof {
                assert(name@ =~= seq!['d', 'o']);
            }
            return Some(Token::Do);
        }
        if c0 == 'u' && c1 == '8' {
            proof {
                assert(name@ =~= seq!['u', '8']);
            }
            return Some(Token::U8);
        }
        if c0 == 'i' && c1 == '8' {
            proof {
                assert(name@ =~= seq!['i', '8']);
            }
            return Some(Token::I8);
        }
        return None;
    }
    if n == 3 {
        let c0 = name[0];
        let c1 = name[1];
        let c2 = name[2];
        if c0 == 'f' && c1 == 'o' && c2 == 'r' {
            proof {
                assert(name@ =~= seq!['f', 'o', 'r']);
            }
            return Some(Token::For);
        }
        if c0 == 'u' && c1 == '1' && c2 == '6' {
            proof {
                assert(name@ =~= seq!['u', '1', '6']);
            }
            return Some(Token::U16);
        }
        if c0 == 'u' && c1 == '3' && c2 == '2' {
            proof {
                assert(name@ =~= seq!['u', '3', '2']);
            }
            return Some(Token::U32);
        }
        if c0 == 'u' && c1 == '6' && c2 == '4' {
            proof {
                assert(name@ =~= seq!['u', '6', '4']);
            }
            return Some(Token::U64);
        }
        if c0 == 'i' && c1 == '1' && c2 == '6' {
            proof {
                assert(name@ =~= seq!['i', '1', '6']);
            }
            return Some(Token::I16);
        }
        if c0 == 'i' && c1 == '3' && c2 == '2' {
            proof {
                assert(name@ =~= seq!['i', '3', '2']);
            }
            return Some(Token::I32);
        }
        if c0 == 'i' && c1 == '6' && c2 == '4' {
            proof {
                assert(name@ =~= seq!['i', '6', '4']);
            }
            return Some(Token::I64);
        }
        return None;
    }
    if n == 4 {
        if name[0] == 'e' && name[1] == 'l' && name[2] == 's' && name[3] == 'e' {
            proof {
                assert(name@ =~= seq!['e', 'l', 's', 'e']);
            }
            return Some(Token::Else);
        }
        return None;
    }
    if n == 5 {
        let c0 = name[0];
        let c1 = name[1];
        let c2 = name[2];
        let c3 = name[3];
        let c4 = name[4];
        if c0 == 'w' && c1 == 'h' && c2 == 'i' && c3 == 'l' && c4 == 'e' {
            proof {
                assert(name@ =~= seq!['w', 'h', 'i', 'l', 'e']);
            }
            return Some(Token::While);
        }
        if c0 == 'u' && c1 == 's' && c2 == 'i' && c3 == 'z' && c4 == 'e' {
            proof {
                assert(name@ =~= seq!['u', 's', 'i', 'z', 'e']);
            }
            return Some(Token::Usize);
        }
        if c0 == 'i' && c1 == 's' && c2 == 'i' && c3 == 'z' && c4 == 'e' {
            proof {
                assert(name@ =~= seq!['i', 's', 'i', 'z', 'e']);
            }
            return Some(Token::Isize);
        }
        return None;
    }
    None
}

// ----------------------------------------------------------------------
// Token dispatch
// ----------------------------------------------------------------------

/// The token recognized at a position, where it ends, and whether scanning
/// it raised the empty-exponent diagnostic.
pub struct LexStep {
    pub token: SpecToken,
    pub end: int,
    pub warn: bool,
}

/// The two-character operator formed by `c1` followed by `c2`, if any.
pub open spec fn two_char_token(c1: char, c2: char) -> Option<SpecToken> {
    if c1 == '&' && c2 == '&' {
        Some(SpecToken::And)
    } else if c1 == '|' && c2 == '|' {
        Some(SpecToken::Or)
    } else if c1 == '=' && c2 == '=' {
        Some(SpecToken::Equal)
    } else if c1 == '!' && c2 == '=' {
        Some(SpecToken::NotEqual)
    } else if c1 == '<' && c2 == '=' {
        Some(SpecToken::LessEqual)
    } else if c1 == '>' && c2 == '=' {
        Some(SpecToken::GreaterEqual)
    } else if c1 == '+' && c2 == '+' {
        Some(SpecToken::Increment)
    } else if c1 == '-' && c2 == '-' {
        Some(SpecToken::Decrement)
    } else if c1 == '+' && c2 == '=' {
        Some(SpecToken::AssignPlus)
    } else if c1 == '-' && c2 == '=' {
        Some(SpecToken::AssignMinus)
    } else if c1 == '*' && c2 == '=' {
        Some(SpecToken::AssignMultiply)
    } else if c1 == '/' && c2 == '=' {
        Some(SpecToken::AssignDivide)
    } else if c1 == '%' && c2 == '=' {
        Some(SpecToken::AssignMod)
    } else if c1 == '-' && c2 == '>' {
        Some(SpecToken::Arrow)
    } else {
        None
    }
}

/// The fixed-base integer token whose base marker is `t`.
pub open spec fn base_token_of(t: char, v: Seq<char>, tr: Seq<char>) -> SpecToken {
    if t == 'b' {
        SpecToken::Binary { v, t: tr }
    } else if t == 'o' {
        SpecToken::Octal { v, t: tr }
    } else {
        SpecToken::Hexadecimal { v, t: tr }
    }
}

/// Whether the character at `j` opens a fixed-base integer literal: a zero
/// followed immediately by a base marker.
pub open spec fn base_opens(s: Seq<char>, j: int) -> bool {
    s[j] == '0' && j + 1 < s.len() && (s[j + 1] == 'b' || s[j + 1] == 'o' || s[j + 1] == 'x' || s[j
        + 1] == 'X')
}

/// Whether the character at `j` opens a decimal or float literal: a digit,
/// or a decimal point followed immediately by a digit.
pub open spec fn decimal_opens(s: Seq<char>, j: int) -> bool {
    is_digit(s[j]) || (s[j] == '.' && j + 1 < s.len() && is_digit(s[j + 1]))
}

/// The scan of a fixed-base integer literal whose `0` and base marker
/// stand at `j` and `j + 1`: digits valid for the base form the value;
/// the first following letter, digit, or underscore — necessarily invalid
/// for the base, the digit run being maximal — opens the suffix run.
pub open spec fn base_token(s: Seq<char>, j: int) -> LexStep {
    let t = s[j + 1];
    let d = base_end(s, j + 2, t);
    if d < s.len() && is_word(s[d]) {
        let w = word_end(s, d);
        LexStep { token: base_token_of(t, s.subrange(j + 2, d), s.subrange(d, w)), end: w, warn: false }
    } else {
        LexStep {
            token: base_token_of(t, s.subrange(j + 2, d), Seq::empty()),
            end: d,
            warn: false,
        }
    }
}

/// The decimal or float token beginning at `j`. A literal opened by `.`
/// before a digit keeps the dot in its value and starts in the fraction
/// state, so it carries the float kind. A second dot is not special-cased:
/// it ends the mantissa and is left for the next dispatch.
pub open spec fn decimal_token(s: Seq<char>, j: int) -> LexStep {
    let g = num_token(s, j);
    LexStep {
        token: if g.is_float {
            SpecToken::Float { v: g.value, t: g.trail }
        } else {
            SpecToken::Decimal { v: g.value, t: g.trail }
        },
        end: g.end,
        warn: g.warn,
    }
}

/// The token beginning at the trivia-free position `j`. With `keyworded`
/// set, a scanned identifier spelling that matches the keyword table is
/// replaced by its keyword token. At the end of the input the token is
/// `EndOfFile`.
pub open spec fn token_at(s: Seq<char>, j: int, keyworded: bool) -> Result<LexStep, LexError> {
    if j >= s.len() {
        Ok(LexStep { token: SpecToken::EndOfFile, end: s.len() as int, warn: false })
    } else {
        let c = s[j];
        let two = if j + 1 < s.len() {
            two_char_token(c, s[j + 1])
        } else {
            None
        };
        match two {
            Some(t) => Ok(LexStep { token: t, end: j + 2, warn: false }),
            None => if is_ident_start(c) {
                let e = word_end(s, j + 1);
                let name = s.subrange(j, e);
                let tok = if keyworded {
                    match keyword_spec(name) {
                        Some(k) => k,
                        None => SpecToken::Ident(name),
                    }
                } else {
                    SpecToken::Ident(name)
                };
                Ok(LexStep { token: tok, end: e, warn: false })
            } else if base_opens(s, j) {
                Ok(base_token(s, j))
            } else if decimal_opens(s, j) {
                Ok(decimal_token(s, j))
            } else if c == '"' {
                match str_token(s, j + 1) {
                    StrScan::Done { text, end } => Ok(
                        LexStep { token: SpecToken::StringLiteral(text), end, warn: false },
                    ),
                    StrScan::Fail { err } => Err(err),
                }
            } else {
                Ok(LexStep { token: SpecToken::Term(c), end: j + 1, warn: false })
            },
        }
    }
}

/// One whole step of a tokenizer positioned at `i`: skip whitespace and
/// comments, then recognize the token that begins there.
pub open spec fn lex_step(s: Seq<char>, i: int, keyworded: bool) -> Result<LexStep, LexError> {
    match skip_trivia(s, i) {
        Ok(j) => token_at(s, j, keyworded),
        Err(e) => Err(e),
    }
}

} // verus!
