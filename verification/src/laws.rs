//! Laws of the tokenizer, stated over the specification functions that the
//! executable functions' contracts use, and proved once and for all inputs.

use vstd::prelude::*;

use crate::LexError;
use crate::chars::is_alnum;
use crate::chars::is_alpha;
use crate::chars::is_base_digit;
use crate::chars::is_digit;
use crate::chars::is_ident_start;
use crate::chars::is_space;
use crate::chars::is_word;
use crate::scan::NumScan;
use crate::scan::NumState;
use crate::scan::base_end;
use crate::scan::lemma_base_end;
use crate::scan::lemma_num_scan_end;
use crate::scan::lemma_skip_trivia_end;
use crate::scan::lemma_str_scan_end;
use crate::scan::lemma_word_end;
use crate::scan::num_scan;
use crate::scan::num_step;
use crate::scan::num_token;
use crate::scan::escape_char;
use crate::scan::escape_hex_digits;
use crate::scan::skip_trivia;
use crate::scan::str_scan;
use crate::scan::str_token;
use crate::scan::StrScan;
use crate::scan::StrState;
use crate::token::LexStep;
use crate::token::SpecToken;
use crate::token::base_opens;
use crate::token::base_token;
use crate::token::base_token_of;
use crate::token::decimal_opens;
use crate::token::lex_step;
use crate::token::token_at;
use crate::token::two_char_token;

verus! {

// ----------------------------------------------------------------------
// Trivia-only inputs yield end-of-stream and nothing else
// ----------------------------------------------------------------------

/// An input of whitespace alone is skipped whole.
pub proof fn lemma_whitespace_skipped(s: Seq<char>, i: int)
    requires
        0 <= i <= s.len(),
        forall|k: int| 0 <= k < s.len() ==> is_space(s[k]),
    ensures
        skip_trivia(s, i) == Ok::<int, LexError>(s.len() as int),
    decreases s.len() - i,
{
    if i < s.len() {
        lemma_whitespace_skipped(s, i + 1);
    }
}

/// Law: on an input consisting solely of whitespace and comments — one the
/// skipper crosses whole — the tokenizer yields end-of-stream and nothing
/// else: the step at the start is `EndOfFile`, and so is every step taken
/// at the end of the input.
pub proof fn lemma_trivia_only_end_of_stream(s: Seq<char>, keyworded: bool)
    requires
        skip_trivia(s, 0) == Ok::<int, LexError>(s.len() as int),
    ensures
        lex_step(s, 0, keyworded) == Ok::<LexStep, LexError>(
            LexStep { token: SpecToken::EndOfFile, end: s.len() as int, warn: false },
        ),
        lex_step(s, s.len() as int, keyworded) == Ok::<LexStep, LexError>(
            LexStep { token: SpecToken::EndOfFile, end: s.len() as int, warn: false },
        ),
{
}

/// Law: an input of whitespace alone yields end-of-stream and nothing else.
pub proof fn lemma_whitespace_only_end_of_stream(s: Seq<char>, keyworded: bool)
    requires
        forall|k: int| 0 <= k < s.len() ==> is_space(s[k]),
    ensures
        lex_step(s, 0, keyworded) == Ok::<LexStep, LexError>(
            LexStep { token: SpecToken::EndOfFile, end: s.len() as int, warn: false },
        ),
{
    lemma_whitespace_skipped(s, 0);
    lemma_trivia_only_end_of_stream(s, keyworded);
}

// ----------------------------------------------------------------------
// Fixed-base literals round-trip
// ----------------------------------------------------------------------

/// A run of digits all valid for the base ends exactly where they end.
proof fn lemma_base_end_unique(s: Seq<char>, i: int, t: char, d: int)
    requires
        0 <= i <= d <= s.len(),
        forall|k: int| i <= k < d ==> is_base_digit(t, s[k]),
        d < s.len() ==> !is_base_digit(t, s[d]),
    ensures
        base_end(s, i, t) == d,
    decreases d - i,
{
    if i < d {
        lemma_base_end_unique(s, i + 1, t, d);
    }
}

/// Law: a fixed-base literal whose digits are all valid for its base and
/// end at the end of a token scans to exactly those digits, with an empty
/// trail, and the cursor stands exactly after the last valid digit.
pub proof fn lemma_base_round_trip(s: Seq<char>, j: int, d: int)
    requires
        0 <= j,
        j + 2 <= d <= s.len(),
        forall|k: int| j + 2 <= k < d ==> is_base_digit(s[j + 1], #[trigger] s[k]),
        d < s.len() ==> !is_base_digit(s[j + 1], s[d]) && !is_word(s[d]),
    ensures
        base_token(s, j) == (LexStep {
            token: base_token_of(s[j + 1], s.subrange(j + 2, d), Seq::empty()),
            end: d,
            warn: false,
        }),
{
    lemma_base_end_unique(s, j + 2, s[j + 1], d);
}

// ----------------------------------------------------------------------
// Numeric suffix capture
// ----------------------------------------------------------------------

/// Scanning a run of digits in a state that digits keep — integer part,
/// fraction, or exponent — accumulates exactly that run onto the value.
proof fn lemma_num_scan_digits(s: Seq<char>, i: int, d: int, st: NumState, v: Seq<char>, t: Seq<
    char,
>)
    requires
        0 <= i <= d <= s.len(),
        st == NumState::Int || st == NumState::Dec || st == NumState::Exp,
        forall|k: int| i <= k < d ==> is_digit(s[k]),
    ensures
        num_scan(s, i, st, v, t) == num_scan(s, d, st, v + s.subrange(i, d), t),
    decreases d - i,
{
    if i < d {
        lemma_num_scan_digits(s, i + 1, d, st, v.push(s[i]), t);
        assert(v.push(s[i]) + s.subrange(i + 1, d) =~= v + s.subrange(i, d));
    } else {
        assert(v + s.subrange(i, d) =~= v);
    }
}

/// Scanning a run of letters and digits in the suffix state accumulates
/// exactly that run onto the trail.
proof fn lemma_num_scan_trail(s: Seq<char>, i: int, w: int, v: Seq<char>, t: Seq<char>)
    requires
        0 <= i <= w <= s.len(),
        forall|k: int| i <= k < w ==> is_alnum(s[k]),
    ensures
        num_scan(s, i, NumState::IntTrail, v, t) == num_scan(
            s,
            w,
            NumState::IntTrail,
            v,
            t + s.subrange(i, w),
        ),
    decreases w - i,
{
    if i < w {
        lemma_num_scan_trail(s, i + 1, w, v, t.push(s[i]));
        assert(t.push(s[i]) + s.subrange(i + 1, w) =~= t + s.subrange(i, w));
    } else {
        assert(t + s.subrange(i, w) =~= t);
    }
}

/// Law: a decimal literal of digits followed by a trailing alphanumeric
/// suffix scans to a decimal-integer token whose value holds exactly the
/// digits and whose trail holds exactly the suffix.
pub proof fn lemma_decimal_suffix_capture(s: Seq<char>, j: int, d: int, w: int)
    requires
        0 <= j < d <= w <= s.len(),
        forall|k: int| j <= k < d ==> is_digit(s[k]),
        d < w ==> is_alpha(s[d]) && s[d] != 'e' && s[d] != 'E',
        forall|k: int| d < k < w ==> is_alnum(s[k]),
        d == w && w < s.len() ==> num_step(NumState::Int, s[w]) is None,
        d < w && w < s.len() ==> !is_alnum(s[w]),
    ensures
        num_token(s, j) == (NumScan {
            value: s.subrange(j, d),
            trail: s.subrange(d, w),
            is_float: false,
            warn: false,
            end: w,
        }),
{
    assert(seq![s[j]] + s.subrange(j + 1, d) =~= s.subrange(j, d));
    lemma_num_scan_digits(s, j + 1, d, NumState::Int, seq![s[j]], Seq::empty());
    if d == w {
        assert(s.subrange(d, w) =~= Seq::<char>::empty());
    } else {
        assert(num_step(NumState::Int, s[d]) == Some(NumState::IntTrail));
        assert(Seq::<char>::empty().push(s[d]) =~= s.subrange(d, d + 1));
        lemma_num_scan_trail(s, d + 1, w, s.subrange(j, d), s.subrange(d, d + 1));
        assert(s.subrange(d, d + 1) + s.subrange(d + 1, w) =~= s.subrange(d, w));
    }
}

// ----------------------------------------------------------------------
// Float detection and empty-exponent recovery
// ----------------------------------------------------------------------

/// Law: a literal of integer digits, a decimal point with fraction digits,
/// and an exponent marker with a signed or unsigned digit exponent scans
/// to a float token holding exactly that text, with no suffix and no
/// diagnostic. The decimal point stands at `a`, the marker at `b`, and the
/// token ends at `w`.
pub proof fn lemma_float_detection(s: Seq<char>, j: int, a: int, b: int, w: int)
    requires
        0 <= j < a < b < w <= s.len(),
        forall|k: int| j <= k < a ==> is_digit(s[k]),
        s[a] == '.',
        forall|k: int| a < k < b ==> is_digit(s[k]),
        s[b] == 'e' || s[b] == 'E',
        s[b + 1] == '+' || s[b + 1] == '-' || is_digit(s[b + 1]),
        b + 1 < w,
        forall|k: int| b + 1 < k < w ==> is_digit(s[k]),
        w < s.len() ==> num_step(NumState::Exp, s[w]) is None,
    ensures
        num_token(s, j) == (NumScan {
            value: s.subrange(j, w),
            trail: Seq::empty(),
            is_float: true,
            warn: false,
            end: w,
        }),
{
    let e: Seq<char> = Seq::empty();
    assert(seq![s[j]] + s.subrange(j + 1, a) =~= s.subrange(j, a));
    lemma_num_scan_digits(s, j + 1, a, NumState::Int, seq![s[j]], e);
    assert(s.subrange(j, a).push(s[a]) =~= s.subrange(j, a + 1));
    assert(num_scan(s, a, NumState::Int, s.subrange(j, a), e) == num_scan(
        s,
        a + 1,
        NumState::Dec,
        s.subrange(j, a + 1),
        e,
    ));
    lemma_num_scan_digits(s, a + 1, b, NumState::Dec, s.subrange(j, a + 1), e);
    assert(s.subrange(j, a + 1) + s.subrange(a + 1, b) =~= s.subrange(j, b));
    assert(s.subrange(j, b).push(s[b]) =~= s.subrange(j, b + 1));
    assert(num_scan(s, b, NumState::Dec, s.subrange(j, b), e) == num_scan(
        s,
        b + 1,
        NumState::ExpSignDec,
        s.subrange(j, b + 1),
        e,
    ));
    assert(s.subrange(j, b + 1).push(s[b + 1]) =~= s.subrange(j, b + 2));
    assert(num_scan(s, b + 1, NumState::ExpSignDec, s.subrange(j, b + 1), e) == num_scan(
        s,
        b + 2,
        NumState::Exp,
        s.subrange(j, b + 2),
        e,
    ));
    lemma_num_scan_digits(s, b + 2, w, NumState::Exp, s.subrange(j, b + 2), e);
    assert(s.subrange(j, b + 2) + s.subrange(b + 2, w) =~= s.subrange(j, w));
    assert(num_scan(s, w, NumState::Exp, s.subrange(j, w), e) == (NumScan {
        value: s.subrange(j, w),
        trail: e,
        is_float: true,
        warn: false,
        end: w,
    }));
}

/// Law: a run of digits whose exponent marker is the last character of
/// the input recovers: the marker is dropped from the value, the token
/// reverts to a decimal integer, and the one non-fatal diagnostic of the
/// scanner is raised.
pub proof fn lemma_empty_exponent_recovery(s: Seq<char>, j: int, d: int)
    requires
        0 <= j < d < s.len(),
        forall|k: int| j <= k < d ==> is_digit(s[k]),
        s[d] == 'e' || s[d] == 'E',
        d + 1 == s.len(),
    ensures
        num_token(s, j) == (NumScan {
            value: s.subrange(j, d),
            trail: Seq::empty(),
            is_float: false,
            warn: true,
            end: d + 1,
        }),
{
    let e: Seq<char> = Seq::empty();
    assert(seq![s[j]] + s.subrange(j + 1, d) =~= s.subrange(j, d));
    lemma_num_scan_digits(s, j + 1, d, NumState::Int, seq![s[j]], e);
    assert(s.subrange(j, d).push(s[d]) =~= s.subrange(j, d + 1));
    assert(num_scan(s, d, NumState::Int, s.subrange(j, d), e) == num_scan(
        s,
        d + 1,
        NumState::ExpSignInt,
        s.subrange(j, d + 1),
        e,
    ));
    assert(s.subrange(j, d + 1).drop_last() =~= s.subrange(j, d));
    assert(num_scan(s, d + 1, NumState::ExpSignInt, s.subrange(j, d + 1), e) == (NumScan {
        value: s.subrange(j, d),
        trail: e,
        is_float: false,
        warn: true,
        end: d + 1,
    }));
}

/// Law: a run of digits whose exponent marker is followed by a character
/// that is neither sign nor digit recovers mid-stream: the marker is
/// dropped from the value, the offending character is pushed back, the
/// diagnostic is raised, and the token's kind follows the ending state —
/// a float, the marker having been consumed.
pub proof fn lemma_empty_exponent_midstream(s: Seq<char>, j: int, d: int)
    requires
        0 <= j < d < s.len(),
        forall|k: int| j <= k < d ==> is_digit(s[k]),
        s[d] == 'e' || s[d] == 'E',
        d + 1 < s.len(),
        num_step(NumState::ExpSignInt, s[d + 1]) is None,
    ensures
        num_token(s, j) == (NumScan {
            value: s.subrange(j, d),
            trail: Seq::empty(),
            is_float: true,
            warn: true,
            end: d + 1,
        }),
{
    let e: Seq<char> = Seq::empty();
    assert(seq![s[j]] + s.subrange(j + 1, d) =~= s.subrange(j, d));
    lemma_num_scan_digits(s, j + 1, d, NumState::Int, seq![s[j]], e);
    assert(s.subrange(j, d).push(s[d]) =~= s.subrange(j, d + 1));
    assert(num_scan(s, d, NumState::Int, s.subrange(j, d), e) == num_scan(
        s,
        d + 1,
        NumState::ExpSignInt,
        s.subrange(j, d + 1),
        e,
    ));
    assert(s.subrange(j, d + 1).drop_last() =~= s.subrange(j, d));
    assert(num_scan(s, d + 1, NumState::ExpSignInt, s.subrange(j, d + 1), e) == (NumScan {
        value: s.subrange(j, d),
        trail: e,
        is_float: true,
        warn: true,
        end: d + 1,
    }));
}

// ----------------------------------------------------------------------
// Progress: no token is ever produced twice
// ----------------------------------------------------------------------

/// Law: a tokenizer step never moves the cursor backwards, every token
/// other than end-of-stream consumes at least one character, and the
/// end-of-stream step stands at the end of the input. Hence no token is
/// produced twice, and end-of-stream, once reached, is returned again on
/// every later step.
pub proof fn lemma_progress(s: Seq<char>, i: int, keyworded: bool)
    requires
        0 <= i <= s.len(),
    ensures
        lex_step(s, i, keyworded) matches Ok(st) ==> {
            &&& i <= st.end <= s.len()
            &&& !(st.token is EndOfFile) ==> i < st.end
            &&& st.token is EndOfFile ==> st.end == s.len()
        },
{
    match skip_trivia(s, i) {
        Err(_) => {},
        Ok(j) => {
            lemma_skip_trivia_end(s, i);
            if j < s.len() {
                let c = s[j];
                let two = if j + 1 < s.len() {
                    two_char_token(c, s[j + 1])
                } else {
                    None
                };
                if two is Some {
                } else if is_ident_start(c) {
                    lemma_word_end(s, j + 1);
                } else if base_opens(s, j) {
                    lemma_base_end(s, j + 2, s[j + 1]);
                    let d = base_end(s, j + 2, s[j + 1]);
                    if d < s.len() && is_word(s[d]) {
                        lemma_word_end(s, d);
                    }
                } else if decimal_opens(s, j) {
                    let seed = if s[j] == '.' {
                        NumState::Dec
                    } else {
                        NumState::Int
                    };
                    lemma_num_scan_end(s, j + 1, seed, seq![s[j]], Seq::empty());
                } else if c == '"' {
                    lemma_str_scan_end(s, j + 1, StrState::Plain, Seq::empty());
                }
            }
        },
    }
}

// ----------------------------------------------------------------------
// String escape fidelity
// ----------------------------------------------------------------------

/// Characters that are neither a backslash nor a closing quote pass into
/// the decoded text unchanged.
proof fn lemma_str_scan_plain(s: Seq<char>, i: int, q: int, acc: Seq<char>)
    requires
        0 <= i <= q <= s.len(),
        forall|k: int| i <= k < q ==> s[k] != '\\' && s[k] != '"',
    ensures
        str_scan(s, i, StrState::Plain, acc) == str_scan(s, q, StrState::Plain, acc + s.subrange(i, q)),
    decreases q - i,
{
    if i < q {
        lemma_str_scan_plain(s, i + 1, q, acc.push(s[i]));
        assert(acc.push(s[i]) + s.subrange(i + 1, q) =~= acc + s.subrange(i, q));
    } else {
        assert(acc + s.subrange(i, q) =~= acc);
    }
}

/// Law: a string literal holding no escapes decodes to exactly its own
/// characters, and the scan ends just after the closing quote.
pub proof fn lemma_plain_string_fidelity(s: Seq<char>, i: int, q: int)
    requires
        0 <= i <= q < s.len(),
        forall|k: int| i <= k < q ==> s[k] != '\\' && s[k] != '"',
        s[q] == '"',
    ensures
        str_token(s, i) == (StrScan::Done { text: s.subrange(i, q), end: q + 1 }),
{
    let e: Seq<char> = Seq::empty();
    lemma_str_scan_plain(s, i, q, e);
    assert(e + s.subrange(i, q) =~= s.subrange(i, q));
}

/// Law: a backslash followed by a character that neither names an escape
/// nor opens a hex escape is the fatal invalid-escape error.
pub proof fn lemma_invalid_escape_fatal(s: Seq<char>, p: int, acc: Seq<char>)
    requires
        0 <= p,
        p + 1 < s.len(),
        s[p] == '\\',
        escape_char(s[p + 1]) is None,
        escape_hex_digits(s[p + 1]) is None,
    ensures
        str_scan(s, p, StrState::Plain, acc) == (StrScan::Fail { err: LexError::InvalidEscape }),
{
    assert(str_scan(s, p, StrState::Plain, acc) == str_scan(s, p + 1, StrState::Esc, acc));
}

// ----------------------------------------------------------------------
// Two-character operators are atomic
// ----------------------------------------------------------------------

/// Law: where two adjacent characters form a two-character operator, the
/// token recognized there is that single operator, consuming both
/// characters — never a one-character terminal.
pub proof fn lemma_two_char_atomic(s: Seq<char>, j: int, t: SpecToken, keyworded: bool)
    requires
        0 <= j,
        j + 1 < s.len(),
        two_char_token(s[j], s[j + 1]) == Some(t),
    ensures
        token_at(s, j, keyworded) == Ok::<LexStep, LexError>(
            LexStep { token: t, end: j + 2, warn: false },
        ),
{
}

} // verus!
