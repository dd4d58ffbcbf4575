use clex::lex::Lex;
use clex::lex::Token as PlainToken;
use clex::lexer::Lexer;
use clex::parser::ParseError;
use clex::parser::Parser;
use clex::token::Token;
use clex::LexError;

fn parser(s: &str) -> Parser {
    Parser::new(Lexer::new(s.chars().collect()))
}

#[test]
fn parses_declaration() {
    let mut p = parser("u32 x = 0xFF;");
    let d = p.parse().expect("expected a declaration");
    assert!(matches!(d.ty, Token::U32));
    assert_eq!(d.name, "x");
    assert_eq!(d.value, "FF");
}

#[test]
fn parses_declaration_with_comments() {
    let mut p = parser("i8 /* width */ y = 10; // done");
    let d = p.parse().expect("expected a declaration");
    assert!(matches!(d.ty, Token::I8));
    assert_eq!(d.name, "y");
    assert_eq!(d.value, "10");
}

#[test]
fn parses_isize_declaration() {
    let mut p = parser("isize z = 2;");
    let d = p.parse().expect("expected a declaration");
    assert!(matches!(d.ty, Token::Isize));
    assert_eq!(d.name, "z");
    assert_eq!(d.value, "2");
}

#[test]
fn parses_float_constant() {
    let mut p = parser("u64 f = 1.5e3;");
    let d = p.parse().expect("expected a declaration");
    assert_eq!(d.value, "1.5e3");
}

#[test]
fn rejects_missing_type() {
    let mut p = parser("foo x = 1;");
    assert_eq!(p.parse().unwrap_err(), ParseError::ExpectedType);
}

#[test]
fn rejects_missing_identifier() {
    let mut p = parser("u8 8 = 1;");
    assert_eq!(p.parse().unwrap_err(), ParseError::ExpectedIdentifier);
}

#[test]
fn rejects_missing_equals() {
    let mut p = parser("u8 x == 1;");
    assert_eq!(p.parse().unwrap_err(), ParseError::ExpectedEquals);
}

#[test]
fn rejects_missing_constant() {
    let mut p = parser("u8 x = y;");
    assert_eq!(p.parse().unwrap_err(), ParseError::ExpectedConstant);
}

#[test]
fn rejects_missing_semicolon() {
    let mut p = parser("u8 x = 1");
    assert_eq!(p.parse().unwrap_err(), ParseError::ExpectedSemicolon);
}

#[test]
fn propagates_lexical_error() {
    let mut p = parser("u8 x = 1 /* open");
    assert_eq!(
        p.parse().unwrap_err(),
        ParseError::Lexical(LexError::UnclosedComment)
    );
}

#[test]
fn plain_tokenizer_keeps_keywords_as_identifiers() {
    let mut lx = Lex::new("if x".chars().collect());
    match lx.next_token().expect("unexpected lexical error") {
        Some(PlainToken::Ident(s)) => assert_eq!(s, "if"),
        other => panic!("unexpected token {:?}", other),
    }
    match lx.next_token().expect("unexpected lexical error") {
        Some(PlainToken::Ident(s)) => assert_eq!(s, "x"),
        other => panic!("unexpected token {:?}", other),
    }
    assert!(lx.next_token().expect("unexpected lexical error").is_none());
    assert!(lx.next_token().expect("unexpected lexical error").is_none());
}

#[test]
fn plain_tokenizer_uses_char_fallback() {
    let mut lx = Lex::new("0b11;".chars().collect());
    match lx.next_token().expect("unexpected lexical error") {
        Some(PlainToken::Binary { v, t }) => {
            assert_eq!(v, "11");
            assert_eq!(t, "");
        },
        other => panic!("unexpected token {:?}", other),
    }
    assert!(matches!(
        lx.next_token().expect("unexpected lexical error"),
        Some(PlainToken::Char(';'))
    ));
}

#[test]
fn plain_tokenizer_scans_dot_float() {
    let mut lx = Lex::new(".5".chars().collect());
    match lx.next_token().expect("unexpected lexical error") {
        Some(PlainToken::Float { v, t }) => {
            assert_eq!(v, ".5");
            assert_eq!(t, "");
        },
        other => panic!("unexpected token {:?}", other),
    }
}

#[test]
fn plain_tokenizer_text_matches() {
    assert_eq!(PlainToken::Char('+').text(), "<+>");
    assert_eq!(PlainToken::Ident("ab".to_string()).text(), "<Ident=\"ab\">");
}
