use clex::lexer::Lexer;
use clex::token::Token;
use clex::LexError;

fn lexer(s: &str) -> Lexer {
    Lexer::new(s.chars().collect())
}

fn string_token(input: &str) -> String {
    let mut lx = lexer(input);
    match lx.next_token().expect("unexpected lexical error") {
        Token::StringLiteral(s) => s,
        other => panic!("unexpected token {:?}", other),
    }
}

fn string_error(input: &str) -> LexError {
    let mut lx = lexer(input);
    lx.next_token().unwrap_err()
}

#[test]
fn hex_and_unicode_escapes_decode() {
    assert_eq!(string_token("\"\\x41\\u0042\""), "AB");
}

#[test]
fn named_escapes_decode() {
    assert_eq!(string_token("\"a\\n\\tb\\\\c\\\"d\\?e\\'f\""), "a\n\tb\\c\"d?e'f");
    assert_eq!(
        string_token("\"\\a\\b\\f\\r\\v\""),
        "\u{7}\u{8}\u{c}\r\u{b}"
    );
}

#[test]
fn long_unicode_escape_decodes() {
    assert_eq!(string_token("\"\\U0001F600\""), "\u{1F600}");
}

#[test]
fn plain_text_passes_through() {
    assert_eq!(string_token("\"hello, world\""), "hello, world");
}

#[test]
fn unrecognized_escape_is_fatal() {
    assert_eq!(string_error("\"\\q\""), LexError::InvalidEscape);
}

#[test]
fn non_hex_digit_in_escape_is_fatal() {
    assert_eq!(string_error("\"\\xZZ\""), LexError::InvalidHexDigit);
}

#[test]
fn surrogate_code_point_is_fatal() {
    assert_eq!(string_error("\"\\uD800\""), LexError::InvalidCodePoint);
}

#[test]
fn out_of_range_code_point_is_fatal() {
    assert_eq!(string_error("\"\\UFFFFFFFF\""), LexError::InvalidCodePoint);
}

#[test]
fn unterminated_string_ends_with_partial_text() {
    let mut lx = lexer("\"abc");
    match lx.next_token().expect("unexpected lexical error") {
        Token::StringLiteral(s) => assert_eq!(s, "abc"),
        other => panic!("unexpected token {:?}", other),
    }
    assert!(matches!(
        lx.next_token().expect("unexpected lexical error"),
        Token::EndOfFile
    ));
}
