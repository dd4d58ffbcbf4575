//! The scanners shared by the tokenizers: maximal character runs, the
//! numeric-literal state machine, the string-literal decoder, and
//! whitespace and comment skipping.
//!
//! Each executable scanner is specified against a recursive specification
//! function over the input character sequence, so a caller's contract can
//! name the exact text and end position of every token.

use vstd::prelude::*;

use crate::LexError;
use crate::chars::alnum;
use crate::chars::alpha;
use crate::chars::base_digit;
use crate::chars::digit;
use crate::chars::hex_digit;
use crate::chars::hex_digit_value;
use crate::chars::is_alnum;
use crate::chars::is_alpha;
use crate::chars::is_base_digit;
use crate::chars::is_digit;
use crate::chars::is_hex_digit;
use crate::chars::is_space;
use crate::chars::is_word;
use crate::chars::hex_value;
use crate::chars::space;
use crate::chars::word;

verus! {

// ----------------------------------------------------------------------
// Maximal runs of a character class
// ----------------------------------------------------------------------

/// The first position at or after `i` whose character does not continue a
/// word (identifier or suffix) run, or the end of the input.
pub open spec fn word_end(s: Seq<char>, i: int) -> int
    decreases s.len() - i,
{
    if i < 0 || i >= s.len() {
        i
    } else if is_word(s[i]) {
        word_end(s, i + 1)
    } else {
        i
    }
}

pub proof fn lemma_word_end(s: Seq<char>, i: int)
    requires
        0 <= i <= s.len(),
    ensures
        i <= word_end(s, i) <= s.len(),
        forall|k: int| i <= k < word_end(s, i) ==> is_word(s[k]),
        word_end(s, i) < s.len() ==> !is_word(s[word_end(s, i)]),
    decreases s.len() - i,
{
    if i < s.len() && is_word(s[i]) {
        lemma_word_end(s, i + 1);
    }
}

/// The end of a maximal run of digits valid for the base named by `t`.
pub open spec fn base_end(s: Seq<char>, i: int, t: char) -> int
    decreases s.len() - i,
{
    if i < 0 || i >= s.len() {
        i
    } else if is_base_digit(t, s[i]) {
        base_end(s, i + 1, t)
    } else {
        i
    }
}

pub proof fn lemma_base_end(s: Seq<char>, i: int, t: char)
    requires
        0 <= i <= s.len(),
    ensures
        i <= base_end(s, i, t) <= s.len(),
    decreases s.len() - i,
{
    if i < s.len() && is_base_digit(t, s[i]) {
        lemma_base_end(s, i + 1, t);
    }
}

/// The position just after the newline that closes a single-line comment,
/// or the end of the input when no newline follows.
pub open spec fn line_end(s: Seq<char>, i: int) -> int
    decreases s.len() - i,
{
    if i < 0 || i >= s.len() {
        i
    } else if s[i] == '\n' {
        i + 1
    } else {
        line_end(s, i + 1)
    }
}

pub proof fn lemma_line_end(s: Seq<char>, i: int)
    requires
        0 <= i <= s.len(),
    ensures
        i <= line_end(s, i) <= s.len(),
    decreases s.len() - i,
{
    if i < s.len() && s[i] != '\n' {
        lemma_line_end(s, i + 1);
    }
}

/// Scans the maximal word run beginning at `from`.
pub fn scan_word(s: &Vec<char>, from: usize) -> (j: usize)
    requires
        from <= s@.len(),
    ensures
        j == word_end(s@, from as int),
        from <= j <= s@.len(),
{
    let mut i = from;
    while i < s.len() && word(s[i])
        invariant
            from <= i <= s@.len(),
            word_end(s@, from as int) == word_end(s@, i as int),
        decreases s@.len() - i,
    {
        i = i + 1;
    }
    i
}

/// Scans the maximal run of digits of the base named by `t`.
pub fn scan_base_digits(s: &Vec<char>, from: usize, t: char) -> (j: usize)
    requires
        from <= s@.len(),
    ensures
        j == base_end(s@, from as int, t),
        from <= j <= s@.len(),
{
    let mut i = from;
    while i < s.len() && base_digit(t, s[i])
        invariant
            from <= i <= s@.len(),
            base_end(s@, from as int, t) == base_end(s@, i as int, t),
        decreases s@.len() - i,
    {
        i = i + 1;
    }
    i
}

/// Skips a single-line comment body beginning at `from`, through and
/// including the next newline.
pub fn scan_line(s: &Vec<char>, from: usize) -> (j: usize)
    requires
        from <= s@.len(),
    ensures
        j == line_end(s@, from as int),
        from <= j <= s@.len(),
{
    let mut i = from;
    while i < s.len()
        invariant
            from <= i <= s@.len(),
            line_end(s@, from as int) == line_end(s@, i as int),
        decreases s@.len() - i,
    {
        if s[i] == '\n' {
            return i + 1;
        }
        i = i + 1;
    }
    i
}

// ----------------------------------------------------------------------
// Building token text
// ----------------------------------------------------------------------

/// Copies the characters of `s` between `from` and `to` into a fresh vector.
pub fn collect_range(s: &Vec<char>, from: usize, to: usize) -> (r: Vec<char>)
    requires
        from <= to <= s@.len(),
    ensures
        r@ == s@.subrange(from as int, to as int),
{
    let mut r: Vec<char> = Vec::new();
    let mut i = from;
    while i < to
        invariant
            from <= i <= to <= s@.len(),
            r@ == s@.subrange(from as int, i as int),
        decreases to - i,
    {
        r.push(s[i]);
        proof {
            assert(s@.subrange(from as int, i + 1 as int) =~= s@.subrange(
                from as int,
                i as int,
            ).push(s@[i as int]));
        }
        i = i + 1;
    }
    r
}

/// Relies on `String::push`: it appends exactly the one given character.
#[verifier::external_body]
pub(crate) fn push_char(s: &mut String, c: char)
    ensures
        final(s)@ == old(s)@.push(c),
{
    s.push(c);
}

/// Builds a `String` holding exactly the given characters.
pub fn string_from_chars(v: &Vec<char>) -> (s: String)
    ensures
        s@ == v@,
{
    let mut s = String::new();
    let mut i: usize = 0;
    while i < v.len()
        invariant
            i <= v@.len(),
            s@ == v@.subrange(0, i as int),
        decreases v@.len() - i,
    {
        push_char(&mut s, v[i]);
        proof {
            assert(v@.subrange(0, i + 1 as int) =~= v@.subrange(0, i as int).push(v@[i as int]));
        }
        i = i + 1;
    }
    proof {
        assert(v@.subrange(0, v@.len() as int) =~= v@);
    }
    s
}

// ----------------------------------------------------------------------
// Comments and whitespace
// ----------------------------------------------------------------------

/// The states of the block-comment skipper: plain text, just after a `/`,
/// or just after a `*`.
#[derive(Clone, Copy, PartialEq, Eq, Structural, Debug)]
pub enum ComState {
    Plain,
    Slash,
    Star,
}

/// Skips a nested block comment from position `i` in state `st` at nesting
/// depth `depth`. Each further `/*` sighting deepens the nesting; each `*/`
/// sighting closes one level, and at depth zero ends the comment, giving
/// the position after its closing slash. `None` means the input ended with
/// the comment still open.
pub open spec fn com_scan(s: Seq<char>, i: int, st: ComState, depth: int) -> Option<int>
    decreases s.len() - i,
{
    if i < 0 || i >= s.len() {
        None
    } else {
        let c = s[i];
        match st {
            ComState::Plain => if c == '/' {
                com_scan(s, i + 1, ComState::Slash, depth)
            } else if c == '*' {
                com_scan(s, i + 1, ComState::Star, depth)
            } else {
                com_scan(s, i + 1, ComState::Plain, depth)
            },
            ComState::Slash => if c == '*' {
                com_scan(s, i + 1, ComState::Plain, depth + 1)
            } else if c == '/' {
                com_scan(s, i + 1, ComState::Slash, depth)
            } else {
                com_scan(s, i + 1, ComState::Plain, depth)
            },
            ComState::Star => if c == '/' {
                if depth <= 0 {
                    Some(i + 1)
                } else {
                    com_scan(s, i + 1, ComState::Plain, depth - 1)
                }
            } else if c == '*' {
                com_scan(s, i + 1, ComState::Star, depth)
            } else {
                com_scan(s, i + 1, ComState::Plain, depth)
            },
        }
    }
}

/// The skip of a whole block comment whose opener `/*` stands just before
/// position `i`.
pub open spec fn com_token(s: Seq<char>, i: int) -> Option<int> {
    com_scan(s, i, ComState::Plain, 0)
}

pub proof fn lemma_com_scan_end(s: Seq<char>, i: int, st: ComState, depth: int)
    requires
        0 <= i <= s.len(),
    ensures
        com_scan(s, i, st, depth) matches Some(j) ==> i < j <= s.len(),
    decreases s.len() - i,
{
    if i < s.len() {
        let c = s[i];
        match st {
            ComState::Plain => {
                if c == '/' {
                    lemma_com_scan_end(s, i + 1, ComState::Slash, depth);
                } else if c == '*' {
                    lemma_com_scan_end(s, i + 1, ComState::Star, depth);
                } else {
                    lemma_com_scan_end(s, i + 1, ComState::Plain, depth);
                }
            },
            ComState::Slash => {
                if c == '*' {
                    lemma_com_scan_end(s, i + 1, ComState::Plain, depth + 1);
                } else if c == '/' {
                    lemma_com_scan_end(s, i + 1, ComState::Slash, depth);
                } else {
                    lemma_com_scan_end(s, i + 1, ComState::Plain, depth);
                }
            },
            ComState::Star => {
                if c == '/' {
                    if depth > 0 {
                        lemma_com_scan_end(s, i + 1, ComState::Plain, depth - 1);
                    }
                } else if c == '*' {
                    lemma_com_scan_end(s, i + 1, ComState::Star, depth);
                } else {
                    lemma_com_scan_end(s, i + 1, ComState::Plain, depth);
                }
            },
        }
    }
}

/// Skips a block comment whose opener `/*` stands just before `pos`.
/// Returns the position after the comment's closing `*/`, or the fatal
/// error for a comment still open at the end of the input.
pub fn scan_block_comment(s: &Vec<char>, pos: usize) -> (r: Result<usize, LexError>)
    requires
        pos <= s@.len(),
    ensures
        match com_token(s@, pos as int) {
            Some(j) => r matches Ok(j2) && j2 == j,
            None => r == Err::<usize, LexError>(LexError::UnclosedComment),
        },
{
    let n = s.len();
    let mut st = ComState::Plain;
    let mut depth: usize = 0;
    let mut i = pos;
    while i < n
        invariant
            pos <= i <= n == s@.len(),
            depth <= i,
            com_token(s@, pos as int) == com_scan(s@, i as int, st, depth as int),
        decreases n - i,
    {
        let c = s[i];
        match st {
            ComState::Plain => {
                if c == '/' {
                    st = ComState::Slash;
                } else if c == '*' {
                    st = ComState::Star;
                }
            },
            ComState::Slash => {
                if c == '*' {
                    st = ComState::Plain;
                    depth = depth + 1;
                } else if c != '/' {
                    st = ComState::Plain;
                }
            },
            ComState::Star => {
                if c == '/' {
                    if depth == 0 {
                        return Ok(i + 1);
                    } else {
                        st = ComState::Plain;
                        depth = depth - 1;
                    }
                } else if c != '*' {
                    st = ComState::Plain;
                }
            },
        }
        i = i + 1;
    }
    Err(LexError::UnclosedComment)
}

/// Where the next token begins: the first position at or after `i` that
/// holds neither whitespace, a single-line comment, nor a block comment.
/// A block comment still open at the end of the input is a fatal error.
pub open spec fn skip_trivia(s: Seq<char>, i: int) -> Result<int, LexError>
    decreases s.len() - i,
    via skip_trivia_dec
{
    if i < 0 || i >= s.len() {
        Ok(if i < 0 { i } else { s.len() as int })
    } else if is_space(s[i]) {
        skip_trivia(s, i + 1)
    } else if s[i] == '/' && i + 1 < s.len() && s[i + 1] == '/' {
        skip_trivia(s, line_end(s, i + 2))
    } else if s[i] == '/' && i + 1 < s.len() && s[i + 1] == '*' {
        match com_token(s, i + 2) {
            Some(j) => skip_trivia(s, j),
            None => Err(LexError::UnclosedComment),
        }
    } else {
        Ok(i)
    }
}

#[via_fn]
proof fn skip_trivia_dec(s: Seq<char>, i: int) {
    if 0 <= i && i + 1 < s.len() && s[i] == '/' {
        if s[i + 1] == '/' {
            lemma_line_end(s, i + 2);
        }
        if s[i + 1] == '*' {
            lemma_com_scan_end(s, i + 2, ComState::Plain, 0);
        }
    }
}

pub proof fn lemma_skip_trivia_end(s: Seq<char>, i: int)
    requires
        0 <= i <= s.len(),
    ensures
        skip_trivia(s, i) matches Ok(j) ==> i <= j <= s.len(),
    decreases s.len() - i,
{
    if i < s.len() {
        if is_space(s[i]) {
            lemma_skip_trivia_end(s, i + 1);
        } else if s[i] == '/' && i + 1 < s.len() && s[i + 1] == '/' {
            lemma_line_end(s, i + 2);
            lemma_skip_trivia_end(s, line_end(s, i + 2));
        } else if s[i] == '/' && i + 1 < s.len() && s[i + 1] == '*' {
            match com_token(s, i + 2) {
                Some(j) => {
                    lemma_com_scan_end(s, i + 2, ComState::Plain, 0);
                    lemma_skip_trivia_end(s, j);
                },
                None => {},
            }
        }
    }
}

/// Skips whitespace and comments from `pos`, stopping at the first
/// character of the next token or at the end of the input.
pub fn skip_trivia_exec(s: &Vec<char>, pos: usize) -> (r: Result<usize, LexError>)
    requires
        pos <= s@.len(),
    ensures
        match skip_trivia(s@, pos as int) {
            Ok(j) => r matches Ok(j2) && j2 == j && pos <= j2 <= s@.len(),
            Err(e) => r == Err::<usize, LexError>(e),
        },
{
    let n = s.len();
    let mut i = pos;
    while i < n
        invariant
            pos <= i <= n == s@.len(),
            skip_trivia(s@, pos as int) == skip_trivia(s@, i as int),
        decreases n - i,
    {
        let c = s[i];
        if space(c) {
            i = i + 1;
        } else if c == '/' && i + 1 < n && s[i + 1] == '/' {
            proof {
                lemma_line_end(s@, i + 2);
            }
            i = scan_line(s, i + 2);
        } else if c == '/' && i + 1 < n && s[i + 1] == '*' {
            match scan_block_comment(s, i + 2) {
                Ok(j) => {
                    proof {
                        lemma_com_scan_end(s@, i + 2, ComState::Plain, 0);
                    }
                    i = j;
                },
                Err(e) => {
                    return Err(e);
                },
            }
        } else {
            return Ok(i);
        }
    }
    Ok(i)
}

// ----------------------------------------------------------------------
// Decimal and floating-point literals
// ----------------------------------------------------------------------

/// The states of the decimal/float scanner. `Int` and `Dec` accumulate the
/// mantissa before and after the decimal point; `ExpSignInt` and `ExpSignDec`
/// have just read `e` or `E` (from `Int` or from `Dec` respectively) and
/// await a sign or digit; `Exp` accumulates exponent characters; `IntTrail`
/// and `FloatTrail` accumulate a trailing alphanumeric suffix.
#[derive(Clone, Copy, PartialEq, Eq, Structural, Debug)]
pub enum NumState {
    Int,
    Dec,
    ExpSignInt,
    ExpSignDec,
    Exp,
    IntTrail,
    FloatTrail,
}

/// What the decimal/float scanner produced: the literal's significant
/// characters, its unparsed suffix, whether it is a float, whether an empty
/// exponent was recovered from (a non-fatal diagnostic), and the position of
/// the first character after the token.
pub struct NumScan {
    pub value: Seq<char>,
    pub trail: Seq<char>,
    pub is_float: bool,
    pub warn: bool,
    pub end: int,
}

/// Whether characters consumed in state `st` belong to the suffix rather
/// than to the literal's value.
pub open spec fn num_in_trail(st: NumState) -> bool {
    st == NumState::IntTrail || st == NumState::FloatTrail
}

/// One transition of the decimal/float scanner: the state after reading `c`
/// in state `st`, or `None` when `c` ends the token and is left unread.
pub open spec fn num_step(st: NumState, c: char) -> Option<NumState> {
    match st {
        NumState::Int => if is_digit(c) {
            Some(NumState::Int)
        } else if c == '.' {
            Some(NumState::Dec)
        } else if c == 'e' || c == 'E' {
            Some(NumState::ExpSignInt)
        } else if is_alpha(c) {
            Some(NumState::IntTrail)
        } else {
            None
        },
        NumState::Dec => if is_digit(c) {
            Some(NumState::Dec)
        } else if c == 'e' || c == 'E' {
            Some(NumState::ExpSignDec)
        } else if is_alpha(c) {
            Some(NumState::FloatTrail)
        } else {
            None
        },
        NumState::ExpSignInt | NumState::ExpSignDec => if c == '+' || c == '-' || is_digit(c) {
            Some(NumState::Exp)
        } else {
            None
        },
        NumState::Exp => if is_digit(c) {
            Some(NumState::Exp)
        } else if is_alpha(c) {
            Some(NumState::FloatTrail)
        } else {
            None
        },
        NumState::IntTrail => if is_alnum(c) {
            Some(NumState::IntTrail)
        } else {
            None
        },
        NumState::FloatTrail => if is_alnum(c) {
            Some(NumState::FloatTrail)
        } else {
            None
        },
    }
}

/// Finishes a decimal/float scan in state `st` at position `i`; `at_end`
/// says whether the input is exhausted rather than a character having
/// ended the token. Ending while an exponent sign or digit was still
/// awaited is the empty-exponent case: the already-accumulated `e`/`E` is
/// dropped from the value and a warning is recorded. The token kind then
/// follows the ending state — Float, the marker having been consumed from
/// a numeric state — except when the input ran out right after a marker
/// that followed plain integer digits: that token is a decimal integer.
pub open spec fn num_finish(st: NumState, v: Seq<char>, t: Seq<char>, i: int, at_end: bool) -> NumScan {
    match st {
        NumState::Int | NumState::IntTrail => NumScan {
            value: v,
            trail: t,
            is_float: false,
            warn: false,
            end: i,
        },
        NumState::ExpSignInt => NumScan {
            value: v.drop_last(),
            trail: t,
            is_float: !at_end,
            warn: true,
            end: i,
        },
        NumState::ExpSignDec => NumScan {
            value: v.drop_last(),
            trail: t,
            is_float: true,
            warn: true,
            end: i,
        },
        NumState::Dec | NumState::Exp | NumState::FloatTrail => NumScan {
            value: v,
            trail: t,
            is_float: true,
            warn: false,
            end: i,
        },
    }
}

/// The decimal/float scanner: runs the state machine from position `i` in
/// state `st` with value and trail accumulated so far, until a character
/// ends the token or the input is exhausted.
pub open spec fn num_scan(s: Seq<char>, i: int, st: NumState, v: Seq<char>, t: Seq<char>) -> NumScan
    decreases s.len() - i,
{
    if i < 0 || i >= s.len() {
        num_finish(st, v, t, if i < 0 { i } else { s.len() as int }, true)
    } else {
        match num_step(st, s[i]) {
            Some(st2) => if num_in_trail(st2) {
                num_scan(s, i + 1, st2, v, t.push(s[i]))
            } else {
                num_scan(s, i + 1, st2, v.push(s[i]), t)
            },
            None => num_finish(st, v, t, i, false),
        }
    }
}

/// The scan of a whole decimal or float literal whose first character
/// stands at position `i`. A literal opened by a decimal point keeps the
/// dot in its value and starts in the fraction state, so it carries the
/// float kind; one opened by a digit starts in the integer state.
pub open spec fn num_token(s: Seq<char>, i: int) -> NumScan {
    num_scan(
        s,
        i + 1,
        if s[i] == '.' {
            NumState::Dec
        } else {
            NumState::Int
        },
        seq![s[i]],
        Seq::empty(),
    )
}

pub proof fn lemma_num_scan_end(s: Seq<char>, i: int, st: NumState, v: Seq<char>, t: Seq<char>)
    requires
        0 <= i <= s.len(),
    ensures
        i <= num_scan(s, i, st, v, t).end <= s.len(),
    decreases s.len() - i,
{
    if i < s.len() && num_step(st, s[i]) is Some {
        let st2 = num_step(st, s[i])->Some_0;
        if num_in_trail(st2) {
            lemma_num_scan_end(s, i + 1, st2, v, t.push(s[i]));
        } else {
            lemma_num_scan_end(s, i + 1, st2, v.push(s[i]), t);
        }
    }
}

/// One exec transition of the decimal/float scanner.
fn num_step_exec(st: NumState, c: char) -> (r: Option<NumState>)
    ensures
        r == num_step(st, c),
{
    match st {
        NumState::Int => if digit(c) {
            Some(NumState::Int)
        } else if c == '.' {
            Some(NumState::Dec)
        } else if c == 'e' || c == 'E' {
            Some(NumState::ExpSignInt)
        } else if alpha(c) {
            Some(NumState::IntTrail)
        } else {
            None
        },
        NumState::Dec => if digit(c) {
            Some(NumState::Dec)
        } else if c == 'e' || c == 'E' {
            Some(NumState::ExpSignDec)
        } else if alpha(c) {
            Some(NumState::FloatTrail)
        } else {
            None
        },
        NumState::ExpSignInt | NumState::ExpSignDec => if c == '+' || c == '-' || digit(c) {
            Some(NumState::Exp)
        } else {
            None
        },
        NumState::Exp => if digit(c) {
            Some(NumState::Exp)
        } else if alpha(c) {
            Some(NumState::FloatTrail)
        } else {
            None
        },
        NumState::IntTrail => if alnum(c) {
            Some(NumState::IntTrail)
        } else {
            None
        },
        NumState::FloatTrail => if alnum(c) {
            Some(NumState::FloatTrail)
        } else {
            None
        },
    }
}

/// What `scan_number` hands back to the dispatcher.
pub struct NumberParts {
    pub value: Vec<char>,
    pub trail: Vec<char>,
    pub is_float: bool,
    pub warn: bool,
    pub end: usize,
}

/// Scans a decimal or float literal whose first character stands at `pos`.
pub fn scan_number(s: &Vec<char>, pos: usize) -> (r: NumberParts)
    requires
        pos < s@.len(),
    ensures
        r.value@ == num_token(s@, pos as int).value,
        r.trail@ == num_token(s@, pos as int).trail,
        r.is_float == num_token(s@, pos as int).is_float,
        r.warn == num_token(s@, pos as int).warn,
        r.end == num_token(s@, pos as int).end,
        pos < r.end <= s@.len(),
{
    let ghost goal = num_token(s@, pos as int);
    let n = s.len();
    let mut v: Vec<char> = Vec::new();
    v.push(s[pos]);
    let mut t: Vec<char> = Vec::new();
    let mut st = if s[pos] == '.' {
        NumState::Dec
    } else {
        NumState::Int
    };
    let mut i = pos + 1;
    proof {
        assert(v@ =~= seq![s@[pos as int]]);
        assert(t@ =~= Seq::<char>::empty());
        lemma_num_scan_end(s@, pos + 1, st, v@, t@);
    }
    while i < s.len()
        invariant_except_break
            pos + 1 <= i <= s@.len(),
            goal == num_scan(s@, i as int, st, v@, t@),
            goal == num_token(s@, pos as int),
            (st == NumState::ExpSignInt || st == NumState::ExpSignDec) ==> v@.len() > 0,
        ensures
            pos + 1 <= i <= s@.len(),
            goal == num_finish(st, v@, t@, i as int, i as int >= s@.len()),
            (st == NumState::ExpSignInt || st == NumState::ExpSignDec) ==> v@.len() > 0,
        decreases s@.len() - i,
    {
        let c = s[i];
        match num_step_exec(st, c) {
            Some(st2) => {
                let to_trail = match st2 {
                    NumState::IntTrail | NumState::FloatTrail => true,
                    _ => false,
                };
                if to_trail {
                    t.push(c);
                } else {
                    v.push(c);
                }
                st = st2;
                i = i + 1;
            },
            None => {
                break;
            },
        }
    }
    let at_end = i >= n;
    let mut warn = false;
    let mut is_float = false;
    match st {
        NumState::Int | NumState::IntTrail => {},
        NumState::ExpSignInt => {
            v.pop();
            warn = true;
            is_float = !at_end;
        },
        NumState::ExpSignDec => {
            v.pop();
            warn = true;
            is_float = true;
        },
        NumState::Dec | NumState::Exp | NumState::FloatTrail => {
            is_float = true;
        },
    }
    NumberParts { value: v, trail: t, is_float, warn, end: i }
}

// ----------------------------------------------------------------------
// String literals
// ----------------------------------------------------------------------

/// A Unicode scalar value: a code point outside the surrogate range.
pub open spec fn is_scalar_value(v: u32) -> bool {
    v < 0xD800 || (0xE000 <= v && v <= 0x10FFFF)
}

/// The same predicate over an unbounded code-point value.
pub open spec fn is_scalar_int(v: int) -> bool {
    (0 <= v && v < 0xD800) || (0xE000 <= v && v <= 0x10FFFF)
}

/// The character with code point `v`.
pub open spec fn code_char(v: int) -> char {
    (v as u32) as char
}

/// What a single-character escape `\c` stands for, or `None` when `c`
/// neither names a control character, escapes itself, nor opens a hex
/// escape.
pub open spec fn escape_char(c: char) -> Option<char> {
    if c == 'a' {
        Some('\x07')
    } else if c == 'b' {
        Some('\x08')
    } else if c == 'f' {
        Some('\x0C')
    } else if c == 'n' {
        Some('\n')
    } else if c == 'r' {
        Some('\r')
    } else if c == 't' {
        Some('\t')
    } else if c == 'v' {
        Some('\x0B')
    } else if c == '\\' || c == '\'' || c == '"' || c == '?' {
        Some(c)
    } else {
        None
    }
}

/// How many hex digits the escape opener `c` demands: two for `\x`, four
/// for `\u`, eight for `\U`.
pub open spec fn escape_hex_digits(c: char) -> Option<int> {
    if c == 'x' {
        Some(2)
    } else if c == 'u' {
        Some(4)
    } else if c == 'U' {
        Some(8)
    } else {
        None
    }
}

/// The states of the string-literal scanner: plain text, just after a
/// backslash, or inside a hex escape with the value accumulated so far and
/// the count of digits still owed.
pub enum StrState {
    Plain,
    Esc,
    Hex { val: int, digits: int },
}

/// What a string-literal scan produced: the decoded text with the position
/// after the closing quote (or the end of the input when the quote never
/// came), or a fatal error.
pub enum StrScan {
    Done { text: Seq<char>, end: int },
    Fail { err: LexError },
}

/// The string-literal scanner, from position `i` in state `st` with the
/// text decoded so far. The input ending before the closing quote ends the
/// token silently with the text accumulated by then.
pub open spec fn str_scan(s: Seq<char>, i: int, st: StrState, acc: Seq<char>) -> StrScan
    decreases s.len() - i,
{
    if i < 0 || i >= s.len() {
        StrScan::Done { text: acc, end: if i < 0 { i } else { s.len() as int } }
    } else {
        let c = s[i];
        match st {
            StrState::Plain => if c == '\\' {
                str_scan(s, i + 1, StrState::Esc, acc)
            } else if c == '"' {
                StrScan::Done { text: acc, end: i + 1 }
            } else {
                str_scan(s, i + 1, StrState::Plain, acc.push(c))
            },
            StrState::Esc => match escape_char(c) {
                Some(e) => str_scan(s, i + 1, StrState::Plain, acc.push(e)),
                None => match escape_hex_digits(c) {
                    Some(n) => str_scan(s, i + 1, StrState::Hex { val: 0, digits: n }, acc),
                    None => StrScan::Fail { err: LexError::InvalidEscape },
                },
            },
            StrState::Hex { val, digits } => if is_hex_digit(c) {
                let v2 = val * 16 + hex_value(c) as int;
                if digits <= 1 {
                    if is_scalar_int(v2) {
                        str_scan(s, i + 1, StrState::Plain, acc.push(code_char(v2)))
                    } else {
                        StrScan::Fail { err: LexError::InvalidCodePoint }
                    }
                } else {
                    str_scan(s, i + 1, StrState::Hex { val: v2, digits: digits - 1 }, acc)
                }
            } else {
                StrScan::Fail { err: LexError::InvalidHexDigit }
            },
        }
    }
}

/// The scan of a whole string literal whose opening quote stands just
/// before position `i`.
pub open spec fn str_token(s: Seq<char>, i: int) -> StrScan {
    str_scan(s, i, StrState::Plain, Seq::empty())
}

pub proof fn lemma_str_scan_end(s: Seq<char>, i: int, st: StrState, acc: Seq<char>)
    requires
        0 <= i <= s.len(),
    ensures
        str_scan(s, i, st, acc) matches StrScan::Done { end, .. } ==> i <= end <= s.len(),
    decreases s.len() - i,
{
    if i < s.len() {
        let c = s[i];
        match st {
            StrState::Plain => {
                if c == '\\' {
                    lemma_str_scan_end(s, i + 1, StrState::Esc, acc);
                } else if c != '"' {
                    lemma_str_scan_end(s, i + 1, StrState::Plain, acc.push(c));
                }
            },
            StrState::Esc => {
                match escape_char(c) {
                    Some(e) => lemma_str_scan_end(s, i + 1, StrState::Plain, acc.push(e)),
                    None => {
                        match escape_hex_digits(c) {
                            Some(n) => lemma_str_scan_end(
                                s,
                                i + 1,
                                StrState::Hex { val: 0, digits: n },
                                acc,
                            ),
                            None => {},
                        }
                    },
                }
            },
            StrState::Hex { val, digits } => {
                if is_hex_digit(c) {
                    let v2 = val * 16 + hex_value(c) as int;
                    if digits <= 1 {
                        if is_scalar_int(v2) {
                            lemma_str_scan_end(s, i + 1, StrState::Plain, acc.push(code_char(v2)));
                        }
                    } else {
                        lemma_str_scan_end(
                            s,
                            i + 1,
                            StrState::Hex { val: v2, digits: digits - 1 },
                            acc,
                        );
                    }
                }
            },
        }
    }
}

/// Sixteen to the power `n`; bounds the value accumulating in a hex escape.
pub open spec fn pow16(n: nat) -> nat
    decreases n,
{
    if n == 0 {
        1
    } else {
        16 * pow16((n - 1) as nat)
    }
}

proof fn lemma_pow16_pos(n: nat)
    ensures
        pow16(n) >= 1,
    decreases n,
{
    if n > 0 {
        lemma_pow16_pos((n - 1) as nat);
    }
}

proof fn lemma_pow16_mono(a: nat, b: nat)
    requires
        a <= b,
    ensures
        pow16(a) <= pow16(b),
    decreases b,
{
    if a < b {
        lemma_pow16_mono(a, (b - 1) as nat);
        lemma_pow16_pos((b - 1) as nat);
    }
}

proof fn lemma_pow16_8()
    ensures
        pow16(8) == 0x1_0000_0000,
{
    assert(pow16(0) == 1);
    assert(pow16(1) == 16);
    assert(pow16(2) == 0x100);
    assert(pow16(3) == 0x1000);
    assert(pow16(4) == 0x1_0000);
    assert(pow16(5) == 0x10_0000);
    assert(pow16(6) == 0x100_0000);
    assert(pow16(7) == 0x1000_0000);
}

/// The scanner's executable phase tag; the hex value and remaining digit
/// count live beside it in locals.
#[derive(Clone, Copy, PartialEq, Eq, Structural, Debug)]
enum StrMode {
    Plain,
    Esc,
    Hex,
}

/// The specification state that a phase tag and its locals stand for.
spec fn str_mode_state(mode: StrMode, tmp: u32, rem: u32) -> StrState {
    match mode {
        StrMode::Plain => StrState::Plain,
        StrMode::Esc => StrState::Esc,
        StrMode::Hex => StrState::Hex { val: tmp as int, digits: rem as int },
    }
}

/// The single-character escapes, executably.
fn escape_exec(c: char) -> (r: Option<char>)
    ensures
        r == escape_char(c),
{
    match c {
        'a' => Some('\x07'),
        'b' => Some('\x08'),
        'f' => Some('\x0C'),
        'n' => Some('\n'),
        'r' => Some('\r'),
        't' => Some('\t'),
        'v' => Some('\x0B'),
        '\\' | '\'' | '"' | '?' => Some(c),
        _ => None,
    }
}

/// Scans a string literal from just after its opening quote at `pos - 1`.
/// Returns the escape-decoded text and the position after the closing
/// quote, or the fatal error the literal contains.
pub fn scan_string(s: &Vec<char>, pos: usize) -> (r: Result<(Vec<char>, usize), LexError>)
    requires
        pos <= s@.len(),
    ensures
        match str_token(s@, pos as int) {
            StrScan::Done { text, end } => r matches Ok(p) && p.0@ == text && p.1 == end,
            StrScan::Fail { err } => r == Err::<(Vec<char>, usize), LexError>(err),
        },
{
    let ghost goal = str_token(s@, pos as int);
    let n = s.len();
    let mut acc: Vec<char> = Vec::new();
    let mut mode = StrMode::Plain;
    let mut tmp: u32 = 0;
    let mut rem: u32 = 0;
    let mut i = pos;
    proof {
        assert(acc@ =~= Seq::<char>::empty());
    }
    while i < n
        invariant
            pos <= i <= n == s@.len(),
            goal == str_token(s@, pos as int),
            goal == str_scan(s@, i as int, str_mode_state(mode, tmp, rem), acc@),
            mode == StrMode::Hex ==> 1 <= rem <= 8 && (tmp as nat) < pow16((8 - rem) as nat),
        decreases n - i,
    {
        let c = s[i];
        match mode {
            StrMode::Plain => {
                if c == '\\' {
                    mode = StrMode::Esc;
                } else if c == '"' {
                    return Ok((acc, i + 1));
                } else {
                    acc.push(c);
                }
            },
            StrMode::Esc => {
                match escape_exec(c) {
                    Some(e) => {
                        acc.push(e);
                        mode = StrMode::Plain;
                    },
                    None => {
                        if c == 'x' {
                            tmp = 0;
                            rem = 2;
                            mode = StrMode::Hex;
                        } else if c == 'u' {
                            tmp = 0;
                            rem = 4;
                            mode = StrMode::Hex;
                        } else if c == 'U' {
                            tmp = 0;
                            rem = 8;
                            mode = StrMode::Hex;
                        } else {
                            return Err(LexError::InvalidEscape);
                        }
                        proof {
                            lemma_pow16_pos((8 - rem) as nat);
                        }
                    },
                }
            },
            StrMode::Hex => {
                if hex_digit(c) {
                    let d = hex_digit_value(c);
                    proof {
                        lemma_pow16_mono((8 - rem) as nat, 7);
                        lemma_pow16_8();
                        assert(pow16(7) * 16 == pow16(8));
                        assert((tmp as nat) < pow16(7));
                    }
                    let v2 = tmp * 16 + d;
                    proof {
                        if rem >= 2 {
                            assert((v2 as nat) < pow16((8 - (rem - 1)) as nat));
                        }
                    }
                    proof {
                        assert(v2 as int == (tmp as int) * 16 + (hex_value(c) as int));
                    }
                    if rem == 1 {
                        match char_from_u32(v2) {
                            Some(ch) => {
                                proof {
                                    assert(code_char(v2 as int) as u32 == v2);
                                    crate::chars::lemma_char_eq_by_code(code_char(v2 as int), ch);
                                }
                                acc.push(ch);
                                mode = StrMode::Plain;
                            },
                            None => {
                                return Err(LexError::InvalidCodePoint);
                            },
                        }
                    } else {
                        tmp = v2;
                        rem = rem - 1;
                    }
                } else {
                    return Err(LexError::InvalidHexDigit);
                }
            },
        }
        i = i + 1;
    }
    Ok((acc, i))
}

/// Relies on `char::from_u32`: it returns `Some` exactly on Unicode scalar
/// values, and the returned character has the given code point.
#[verifier::external_body]
pub(crate) fn char_from_u32(v: u32) -> (r: Option<char>)
    ensures
        match r {
            Some(c) => is_scalar_value(v) && c as u32 == v,
            None => !is_scalar_value(v),
        },
{
    char::from_u32(v)
}

} // verus!
