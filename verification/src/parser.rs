//! A minimal parser over the token stream: it recognizes the single
//! declaration form `type ident = constant ;` and hands back its parts.

use vstd::prelude::*;

use crate::LexError;
use crate::lexer::Lexer;
use crate::token::LexStep;
use crate::token::SpecToken;
use crate::token::Token;
use crate::token::lex_step;

verus! {

/// Why a parse failed: a fatal lexical error, or the first token that did
/// not fit the declaration form.
#[derive(Clone, Copy, Debug, PartialEq, Eq, Structural)]
pub enum ParseError {
    Lexical(LexError),
    ExpectedType,
    ExpectedIdentifier,
    ExpectedEquals,
    ExpectedConstant,
    ExpectedSemicolon,
}

/// A recognized declaration: the type keyword, the declared name, and the
/// significant characters of the constant it is bound to.
#[derive(Debug)]
pub struct Declaration {
    pub ty: Token,
    pub name: String,
    pub value: String,
}

/// The mathematical value of a declaration.
pub struct SpecDeclaration {
    pub ty: SpecToken,
    pub name: Seq<char>,
    pub value: Seq<char>,
}

impl View for Declaration {
    type V = SpecDeclaration;

    open spec fn view(&self) -> SpecDeclaration {
        SpecDeclaration { ty: self.ty@, name: self.name@, value: self.value@ }
    }
}

/// Whether a token names one of the primitive types.
pub open spec fn is_type_token(t: SpecToken) -> bool {
    t is U8 || t is U16 || t is U32 || t is U64 || t is Usize || t is I8 || t is I16 || t is I32
        || t is I64 || t is Isize
}

/// The significant characters of a numeric constant token, or `None` when
/// the token is no constant.
pub open spec fn constant_value(t: SpecToken) -> Option<Seq<char>> {
    match t {
        SpecToken::Binary { v, .. } => Some(v),
        SpecToken::Octal { v, .. } => Some(v),
        SpecToken::Decimal { v, .. } => Some(v),
        SpecToken::Hexadecimal { v, .. } => Some(v),
        SpecToken::Float { v, .. } => Some(v),
        _ => None,
    }
}

/// How many non-fatal diagnostics one tokenizer step raised: one where
/// `warn` is set, else none.
pub open spec fn warn_int(st: LexStep) -> int {
    if st.warn {
        1
    } else {
        0
    }
}

/// What parsing one declaration from position `i` gives: on success the
/// declaration, the position after its semicolon, and how many non-fatal
/// diagnostics its tokens raised; otherwise the error, exactly as the
/// offending token determines it.
pub open spec fn parse_decl(s: Seq<char>, i: int) -> Result<(SpecDeclaration, int, int), ParseError> {
    match lex_step(s, i, true) {
        Err(e) => Err(ParseError::Lexical(e)),
        Ok(st1) => if !is_type_token(st1.token) {
            Err(ParseError::ExpectedType)
        } else {
            match lex_step(s, st1.end, true) {
                Err(e) => Err(ParseError::Lexical(e)),
                Ok(st2) => match st2.token {
                    SpecToken::Ident(name) => match lex_step(s, st2.end, true) {
                        Err(e) => Err(ParseError::Lexical(e)),
                        Ok(st3) => if st3.token != SpecToken::Term('=') {
                            Err(ParseError::ExpectedEquals)
                        } else {
                            match lex_step(s, st3.end, true) {
                                Err(e) => Err(ParseError::Lexical(e)),
                                Ok(st4) => match constant_value(st4.token) {
                                    None => Err(ParseError::ExpectedConstant),
                                    Some(value) => match lex_step(s, st4.end, true) {
                                        Err(e) => Err(ParseError::Lexical(e)),
                                        Ok(st5) => if st5.token != SpecToken::Term(';') {
                                            Err(ParseError::ExpectedSemicolon)
                                        } else {
                                            Ok(
                                                (
                                                    SpecDeclaration {
                                                        ty: st1.token,
                                                        name,
                                                        value,
                                                    },
                                                    st5.end,
                                                    warn_int(st1) + warn_int(st2) + warn_int(st3)
                                                        + warn_int(st4) + warn_int(st5),
                                                ),
                                            )
                                        },
                                    },
                                },
                            }
                        },
                    },
                    _ => Err(ParseError::ExpectedIdentifier),
                },
            }
        },
    }
}

/// Whether a token names one of the primitive types, executably.
fn type_token(t: &Token) -> (r: bool)
    ensures
        r == is_type_token(t@),
{
    match t {
        Token::U8 | Token::U16 | Token::U32 | Token::U64 | Token::Usize | Token::I8 | Token::I16
            | Token::I32 | Token::I64 | Token::Isize => true,
        _ => false,
    }
}

/// The parser: it owns the tokenizer and pulls one token at a time.
pub struct Parser {
    lexer: Lexer,
}

impl Parser {
    /// The input character sequence.
    pub closed spec fn src(self) -> Seq<char> {
        self.lexer.src()
    }

    /// The position of the first character no finished token has consumed.
    pub closed spec fn cursor(self) -> int {
        self.lexer.cursor()
    }

    /// How many non-fatal diagnostics scanning has raised so far.
    pub closed spec fn warning_count(self) -> int {
        self.lexer.warning_count()
    }

    pub closed spec fn wf(self) -> bool {
        self.lexer.wf()
    }

    /// A parser reading from the given tokenizer.
    pub fn new(lexer: Lexer) -> (r: Parser)
        requires
            lexer.wf(),
        ensures
            r.wf(),
            r.src() == lexer.src(),
            r.cursor() == lexer.cursor(),
            r.warning_count() == lexer.warning_count(),
    {
        Parser { lexer }
    }

    /// How many non-fatal diagnostics scanning has raised so far.
    pub fn warnings(&self) -> (r: u64)
        ensures
            r == self.warning_count(),
    {
        self.lexer.warnings()
    }

    /// Parses one declaration `type ident = constant ;` from the current
    /// position and returns its parts, or the error that the first
    /// offending token determines.
    pub fn parse(&mut self) -> (r: Result<Declaration, ParseError>)
        requires
            old(self).wf(),
        ensures
            final(self).wf(),
            final(self).src() == old(self).src(),
            match parse_decl(old(self).src(), old(self).cursor()) {
                Ok((d, end, w)) => r matches Ok(decl) && decl@ == d && final(self).cursor() == end
                    && final(self).warning_count() == old(self).warning_count() + w,
                Err(e) => r == Err::<Declaration, ParseError>(e),
            },
    {
        self.translation_unit()
    }

    /// A translation unit is a single global declaration.
    fn translation_unit(&mut self) -> (r: Result<Declaration, ParseError>)
        requires
            old(self).wf(),
        ensures
            final(self).wf(),
            final(self).src() == old(self).src(),
            match parse_decl(old(self).src(), old(self).cursor()) {
                Ok((d, end, w)) => r matches Ok(decl) && decl@ == d && final(self).cursor() == end
                    && final(self).warning_count() == old(self).warning_count() + w,
                Err(e) => r == Err::<Declaration, ParseError>(e),
            },
    {
        self.global_declaration()
    }

    /// A global declaration is a variable declaration.
    fn global_declaration(&mut self) -> (r: Result<Declaration, ParseError>)
        requires
            old(self).wf(),
        ensures
            final(self).wf(),
            final(self).src() == old(self).src(),
            match parse_decl(old(self).src(), old(self).cursor()) {
                Ok((d, end, w)) => r matches Ok(decl) && decl@ == d && final(self).cursor() == end
                    && final(self).warning_count() == old(self).warning_count() + w,
                Err(e) => r == Err::<Declaration, ParseError>(e),
            },
    {
        self.variable_declaration()
    }

    /// A variable declaration starts with its type specifier.
    fn variable_declaration(&mut self) -> (r: Result<Declaration, ParseError>)
        requires
            old(self).wf(),
        ensures
            final(self).wf(),
            final(self).src() == old(self).src(),
            match parse_decl(old(self).src(), old(self).cursor()) {
                Ok((d, end, w)) => r matches Ok(decl) && decl@ == d && final(self).cursor() == end
                    && final(self).warning_count() == old(self).warning_count() + w,
                Err(e) => r == Err::<Declaration, ParseError>(e),
            },
    {
        self.type_specifier()
    }

    /// Reads `type ident = constant ;` one token at a time.
    fn type_specifier(&mut self) -> (r: Result<Declaration, ParseError>)
        requires
            old(self).wf(),
        ensures
            final(self).wf(),
            final(self).src() == old(self).src(),
            match parse_decl(old(self).src(), old(self).cursor()) {
                Ok((d, end, w)) => r matches Ok(decl) && decl@ == d && final(self).cursor() == end
                    && final(self).warning_count() == old(self).warning_count() + w,
                Err(e) => r == Err::<Declaration, ParseError>(e),
            },
    {
        let t1 = match self.lexer.next_token() {
            Ok(t) => t,
            Err(e) => {
                return Err(ParseError::Lexical(e));
            },
        };
        if !type_token(&t1) {
            return Err(ParseError::ExpectedType);
        }
        let t2 = match self.lexer.next_token() {
            Ok(t) => t,
            Err(e) => {
                return Err(ParseError::Lexical(e));
            },
        };
        let name = match t2 {
            Token::Ident(s) => s,
            _ => {
                return Err(ParseError::ExpectedIdentifier);
            },
        };
        let t3 = match self.lexer.next_token() {
            Ok(t) => t,
            Err(e) => {
                return Err(ParseError::Lexical(e));
            },
        };
        match t3 {
            Token::Term('=') => {},
            _ => {
                return Err(ParseError::ExpectedEquals);
            },
        }
        let t4 = match self.lexer.next_token() {
            Ok(t) => t,
            Err(e) => {
                return Err(ParseError::Lexical(e));
            },
        };
        let value = match t4 {
            Token::Binary { v, .. } => v,
            Token::Octal { v, .. } => v,
            Token::Decimal { v, .. } => v,
            Token::Hexadecimal { v, .. } => v,
            Token::Float { v, .. } => v,
            _ => {
                return Err(ParseError::ExpectedConstant);
            },
        };
        let t5 = match self.lexer.next_token() {
            Ok(t) => t,
            Err(e) => {
                return Err(ParseError::Lexical(e));
            },
        };
        match t5 {
            Token::Term(';') => {},
            _ => {
                return Err(ParseError::ExpectedSemicolon);
            },
        }
        Ok(Declaration { ty: t1, name, value })
    }
}

} // verus!
