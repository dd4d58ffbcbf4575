use clex::lexer::Lexer;
use clex::token::Token;
use clex::LexError;

fn lexer(s: &str) -> Lexer {
    Lexer::new(s.chars().collect())
}

fn next(lx: &mut Lexer) -> Token {
    lx.next_token().expect("unexpected lexical error")
}

#[test]
fn empty_input_yields_end_of_stream() {
    let mut lx = lexer("");
    assert!(matches!(next(&mut lx), Token::EndOfFile));
    assert!(matches!(next(&mut lx), Token::EndOfFile));
}

#[test]
fn whitespace_only_yields_end_of_stream() {
    let mut lx = lexer("  \t\r\n   \n");
    assert!(matches!(next(&mut lx), Token::EndOfFile));
    assert!(matches!(next(&mut lx), Token::EndOfFile));
}

#[test]
fn comments_only_yield_end_of_stream() {
    let mut lx = lexer("// line one\n  /* block /* nested */ still */  // tail");
    assert!(matches!(next(&mut lx), Token::EndOfFile));
    assert!(matches!(next(&mut lx), Token::EndOfFile));
}

#[test]
fn nested_comment_skips_to_identifier() {
    let mut lx = lexer("/* a /* b */ c */ x");
    match next(&mut lx) {
        Token::Ident(s) => assert_eq!(s, "x"),
        other => panic!("unexpected token {:?}", other),
    }
    assert!(matches!(next(&mut lx), Token::EndOfFile));
}

#[test]
fn unclosed_comment_is_fatal() {
    let mut lx = lexer("/* never closed");
    assert_eq!(lx.next_token().unwrap_err(), LexError::UnclosedComment);
}

#[test]
fn binary_literal_round_trip() {
    let mut lx = lexer("0b1010");
    match next(&mut lx) {
        Token::Binary { v, t } => {
            assert_eq!(v, "1010");
            assert_eq!(t, "");
        },
        other => panic!("unexpected token {:?}", other),
    }
    assert!(matches!(next(&mut lx), Token::EndOfFile));
}

#[test]
fn octal_literal_round_trip() {
    let mut lx = lexer("0o17");
    match next(&mut lx) {
        Token::Octal { v, t } => {
            assert_eq!(v, "17");
            assert_eq!(t, "");
        },
        other => panic!("unexpected token {:?}", other),
    }
    assert!(matches!(next(&mut lx), Token::EndOfFile));
}

#[test]
fn hexadecimal_literal_round_trip() {
    let mut lx = lexer("0xFF");
    match next(&mut lx) {
        Token::Hexadecimal { v, t } => {
            assert_eq!(v, "FF");
            assert_eq!(t, "");
        },
        other => panic!("unexpected token {:?}", other),
    }
    assert!(matches!(next(&mut lx), Token::EndOfFile));
}

#[test]
fn uppercase_hex_marker_accepted() {
    let mut lx = lexer("0XFF");
    match next(&mut lx) {
        Token::Hexadecimal { v, t } => {
            assert_eq!(v, "FF");
            assert_eq!(t, "");
        },
        other => panic!("unexpected token {:?}", other),
    }
}

#[test]
fn cursor_stops_after_last_valid_digit() {
    // The `)` is neither a digit of the base nor a suffix character, so
    // it is pushed back and scanned as the next token.
    let mut lx = lexer("0o17)");
    match next(&mut lx) {
        Token::Octal { v, t } => {
            assert_eq!(v, "17");
            assert_eq!(t, "");
        },
        other => panic!("unexpected token {:?}", other),
    }
    assert!(matches!(next(&mut lx), Token::Term(')')));
}

#[test]
fn digit_invalid_for_base_opens_suffix() {
    // The `9` is alphanumeric but no octal digit, so it opens the
    // trailing suffix.
    let mut lx = lexer("0o19");
    match next(&mut lx) {
        Token::Octal { v, t } => {
            assert_eq!(v, "1");
            assert_eq!(t, "9");
        },
        other => panic!("unexpected token {:?}", other),
    }
    assert!(matches!(next(&mut lx), Token::EndOfFile));
}

#[test]
fn binary_suffix_starts_at_invalid_digit() {
    let mut lx = lexer("0b12ab");
    match next(&mut lx) {
        Token::Binary { v, t } => {
            assert_eq!(v, "1");
            assert_eq!(t, "2ab");
        },
        other => panic!("unexpected token {:?}", other),
    }
    assert!(matches!(next(&mut lx), Token::EndOfFile));
}

#[test]
fn base_literal_captures_suffix() {
    let mut lx = lexer("0xFFg2");
    match next(&mut lx) {
        Token::Hexadecimal { v, t } => {
            assert_eq!(v, "FF");
            assert_eq!(t, "g2");
        },
        other => panic!("unexpected token {:?}", other),
    }
}

#[test]
fn decimal_captures_suffix() {
    let mut lx = lexer("123abc");
    match next(&mut lx) {
        Token::Decimal { v, t } => {
            assert_eq!(v, "123");
            assert_eq!(t, "abc");
        },
        other => panic!("unexpected token {:?}", other),
    }
    assert!(matches!(next(&mut lx), Token::EndOfFile));
}

#[test]
fn float_with_exponent_detected() {
    let mut lx = lexer("1.5e10");
    match next(&mut lx) {
        Token::Float { v, t } => {
            assert_eq!(v, "1.5e10");
            assert_eq!(t, "");
        },
        other => panic!("unexpected token {:?}", other),
    }
    assert_eq!(lx.warnings(), 0);
}

#[test]
fn empty_exponent_at_end_recovers_to_integer() {
    let mut lx = lexer("1e");
    match next(&mut lx) {
        Token::Decimal { v, t } => {
            assert_eq!(v, "1");
            assert_eq!(t, "");
        },
        other => panic!("unexpected token {:?}", other),
    }
    assert_eq!(lx.warnings(), 1);
}

#[test]
fn empty_exponent_midstream_pushes_back() {
    // Recovery triggered by a following character keeps the float kind:
    // the marker was consumed from a numeric state.
    let mut lx = lexer("1e)");
    match next(&mut lx) {
        Token::Float { v, t } => {
            assert_eq!(v, "1");
            assert_eq!(t, "");
        },
        other => panic!("unexpected token {:?}", other),
    }
    assert!(matches!(next(&mut lx), Token::Term(')')));
    assert_eq!(lx.warnings(), 1);
}

#[test]
fn empty_exponent_after_fraction_stays_float() {
    let mut lx = lexer("2.5e;");
    match next(&mut lx) {
        Token::Float { v, t } => {
            assert_eq!(v, "2.5");
            assert_eq!(t, "");
        },
        other => panic!("unexpected token {:?}", other),
    }
    assert!(matches!(next(&mut lx), Token::Term(';')));
    assert_eq!(lx.warnings(), 1);
}

#[test]
fn signed_exponent_accepted() {
    let mut lx = lexer("3e-7");
    match next(&mut lx) {
        Token::Float { v, t } => {
            assert_eq!(v, "3e-7");
            assert_eq!(t, "");
        },
        other => panic!("unexpected token {:?}", other),
    }
}

#[test]
fn leading_dot_before_digit_scans_as_float() {
    let mut lx = lexer(".5");
    match next(&mut lx) {
        Token::Float { v, t } => {
            assert_eq!(v, ".5");
            assert_eq!(t, "");
        },
        other => panic!("unexpected token {:?}", other),
    }
}

#[test]
fn arrow_is_one_token() {
    let mut lx = lexer("->");
    assert!(matches!(next(&mut lx), Token::Arrow));
    assert!(matches!(next(&mut lx), Token::EndOfFile));
}

#[test]
fn all_two_char_operators() {
    let mut lx = lexer("&& || == != <= >= ++ -- += -= *= /= %= ->");
    assert!(matches!(next(&mut lx), Token::And));
    assert!(matches!(next(&mut lx), Token::Or));
    assert!(matches!(next(&mut lx), Token::Equal));
    assert!(matches!(next(&mut lx), Token::NotEqual));
    assert!(matches!(next(&mut lx), Token::LessEqual));
    assert!(matches!(next(&mut lx), Token::GreaterEqual));
    assert!(matches!(next(&mut lx), Token::Increment));
    assert!(matches!(next(&mut lx), Token::Decrement));
    assert!(matches!(next(&mut lx), Token::AssignPlus));
    assert!(matches!(next(&mut lx), Token::AssignMinus));
    assert!(matches!(next(&mut lx), Token::AssignMultiply));
    assert!(matches!(next(&mut lx), Token::AssignDivide));
    assert!(matches!(next(&mut lx), Token::AssignMod));
    assert!(matches!(next(&mut lx), Token::Arrow));
    assert!(matches!(next(&mut lx), Token::EndOfFile));
}

#[test]
fn keywords_recognized() {
    let mut lx = lexer("if else do while for u8 u16 u32 u64 usize i8 i16 i32 i64 isize");
    assert!(matches!(next(&mut lx), Token::If));
    assert!(matches!(next(&mut lx), Token::Else));
    assert!(matches!(next(&mut lx), Token::Do));
    assert!(matches!(next(&mut lx), Token::While));
    assert!(matches!(next(&mut lx), Token::For));
    assert!(matches!(next(&mut lx), Token::U8));
    assert!(matches!(next(&mut lx), Token::U16));
    assert!(matches!(next(&mut lx), Token::U32));
    assert!(matches!(next(&mut lx), Token::U64));
    assert!(matches!(next(&mut lx), Token::Usize));
    assert!(matches!(next(&mut lx), Token::I8));
    assert!(matches!(next(&mut lx), Token::I16));
    assert!(matches!(next(&mut lx), Token::I32));
    assert!(matches!(next(&mut lx), Token::I64));
    assert!(matches!(next(&mut lx), Token::Isize));
    assert!(matches!(next(&mut lx), Token::EndOfFile));
}

#[test]
fn near_keyword_is_identifier() {
    let mut lx = lexer("ifx u80 _if");
    for expected in ["ifx", "u80", "_if"] {
        match next(&mut lx) {
            Token::Ident(s) => assert_eq!(s, expected),
            other => panic!("unexpected token {:?}", other),
        }
    }
}

#[test]
fn single_char_terminals() {
    let mut lx = lexer("; ( = +");
    assert!(matches!(next(&mut lx), Token::Term(';')));
    assert!(matches!(next(&mut lx), Token::Term('(')));
    assert!(matches!(next(&mut lx), Token::Term('=')));
    assert!(matches!(next(&mut lx), Token::Term('+')));
}

#[test]
fn underscore_ends_decimal_value() {
    // An underscore neither continues a decimal value nor opens its
    // suffix; it starts the next token, an identifier.
    let mut lx = lexer("1_000");
    match next(&mut lx) {
        Token::Decimal { v, t } => {
            assert_eq!(v, "1");
            assert_eq!(t, "");
        },
        other => panic!("unexpected token {:?}", other),
    }
    match next(&mut lx) {
        Token::Ident(s) => assert_eq!(s, "_000"),
        other => panic!("unexpected token {:?}", other),
    }
}

#[test]
fn empty_base_literal_has_empty_value() {
    let mut lx = lexer("0b");
    match next(&mut lx) {
        Token::Binary { v, t } => {
            assert_eq!(v, "");
            assert_eq!(t, "");
        },
        other => panic!("unexpected token {:?}", other),
    }
    assert!(matches!(next(&mut lx), Token::EndOfFile));
}

#[test]
fn unmatched_operator_first_char_falls_back() {
    let mut lx = lexer("&x");
    assert!(matches!(next(&mut lx), Token::Term('&')));
    match next(&mut lx) {
        Token::Ident(s) => assert_eq!(s, "x"),
        other => panic!("unexpected token {:?}", other),
    }
}

#[test]
fn second_decimal_point_ends_the_mantissa() {
    // The second `.` is not special-cased: it ends the float and opens
    // the next numeric token.
    let mut lx = lexer("1.2.3");
    match next(&mut lx) {
        Token::Float { v, t } => {
            assert_eq!(v, "1.2");
            assert_eq!(t, "");
        },
        other => panic!("unexpected token {:?}", other),
    }
    match next(&mut lx) {
        Token::Float { v, t } => {
            assert_eq!(v, ".3");
            assert_eq!(t, "");
        },
        other => panic!("unexpected token {:?}", other),
    }
}

#[test]
fn warnings_accumulate_across_tokens() {
    // The first recovery is mid-stream (a space follows the marker) and
    // keeps the float kind; the second stands at the end of the input and
    // reverts to a decimal integer.
    let mut lx = lexer("1e 2e");
    assert!(matches!(next(&mut lx), Token::Float { .. }));
    assert_eq!(lx.warnings(), 1);
    assert!(matches!(next(&mut lx), Token::Decimal { .. }));
    assert_eq!(lx.warnings(), 2);
}

#[test]
fn float_trail_after_exponent() {
    let mut lx = lexer("1e2x7");
    match next(&mut lx) {
        Token::Float { v, t } => {
            assert_eq!(v, "1e2");
            assert_eq!(t, "x7");
        },
        other => panic!("unexpected token {:?}", other),
    }
}

#[test]
fn token_text_forms() {
    assert_eq!(Token::And.text(), "<And>");
    assert_eq!(
        Token::Decimal { v: "12".to_string(), t: "ab".to_string() }.text(),
        "<Decimal=12 trail=\"ab\">"
    );
    assert_eq!(Token::Ident("x".to_string()).text(), "<Ident=\"x\">");
    assert_eq!(Token::Term('.').text(), "<.>");
    assert_eq!(Token::EndOfFile.text(), "<EndOfFile>");
}
