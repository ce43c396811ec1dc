//! Structured command lines.
//!
//! A `Word` is a single letter paired with a fixed-point value; a `Line` is
//! an optional command word followed by argument words.  `parse_line` turns
//! the text of one framed line into a `Line`.
//!
//! The grammar: words are separated by blanks; a word is an upper-case
//! letter followed by a decimal numeral with an optional leading minus
//! sign, at most six integer digits and at most nine fractional digits.
//! The numeral is read into sixteen fractional bits by rounding the
//! magnitude half up, the same rule `crate::text` formats by, so report
//! output parses back to the value reported.  The first word of a line is
//! its command; a blank line has no command.

use vstd::prelude::*;

use crate::text::pow10;
use crate::text::round_raw;
use crate::value::Value;

verus! {

/// One letter/value pair of a command line.
#[derive(Clone, Copy, Debug, PartialEq, Eq, Structural)]
pub struct Word {
    pub letter: char,
    pub value: Value,
}

impl Word {
    /// Builds a word from a letter and the whole number `n`.
    pub fn new(letter: char, n: i16) -> (r: Word)
        ensures
            r.letter == letter,
            r.value.raw == n as int * crate::value::UNIT,
    {
        Word { letter, value: Value::from_int(n) }
    }
}

/// A command line: an optional command word and its argument words.
/// A line without a command is a no-op.
#[derive(Debug)]
pub struct Line {
    pub command: Option<Word>,
    pub arguments: Vec<Word>,
}

impl Line {
    /// Builds a line from its parts.
    pub fn new(command: Option<Word>, arguments: Vec<Word>) -> (r: Line)
        ensures
            r.command == command,
            r.arguments == arguments,
    {
        Line { command, arguments }
    }
}

/// Why a line of text could not be read as a `Line`.
#[derive(Clone, Copy, Debug, PartialEq, Eq, Structural)]
pub enum ParseError {
    /// The text does not follow the word grammar.
    Syntax,
    /// A numeric value does not fit the fixed-point range or the digit
    /// budget.
    Overflow,
}

/// A run of digit characters followed by a non-digit, or by the end, is
/// exactly where `digits_end` stops.
pub proof fn lemma_digits_end_run(s: Seq<char>, i: int, j: int, e: int)
    requires
        0 <= i <= e <= j <= s.len(),
        forall|m: int| i <= m < e ==> is_digit(s[m]),
        e < j ==> !is_digit(s[e]),
    ensures
        digits_end(s, i, j) == e,
    decreases e - i,
{
    if i < e {
        lemma_digits_end_run(s, i + 1, j, e);
    }
}

/// The numeral of `n`, placed at `i`, reads back as `n`.
pub proof fn lemma_dec_str_reads(s: Seq<char>, i: int, n: int)
    requires
        n >= 0,
        0 <= i,
        i + crate::text::dec_str(n).len() <= s.len(),
        s.subrange(i, i + crate::text::dec_str(n).len()) == crate::text::dec_str(n),
    ensures
        digits_val(s, i, i + crate::text::dec_str(n).len()) == n,
    decreases n,
{
    let t = crate::text::dec_str(n);
    let j = i + t.len();
    assert(s[j - 1] == t[t.len() - 1]) by {
        assert(s.subrange(i, j)[t.len() - 1] == s[j - 1]);
    };
    if n < 10 {
        crate::text::lemma_digit_char_val(n);
        assert(digits_val(s, i, i) == 0);
    } else {
        let t0 = crate::text::dec_str(n / 10);
        assert(s.subrange(i, i + t0.len()) =~= t0) by {
            assert(forall|m: int|
                0 <= m < t0.len() ==> s.subrange(i, i + t0.len())[m] == s.subrange(i, j)[m]);
        };
        lemma_dec_str_reads(s, i, n / 10);
        crate::text::lemma_digit_char_val(n % 10);
    }
}

/// The `k`-digit padded numeral of `n`, placed at `i`, reads back as
/// `n`.
pub proof fn lemma_dec_str_pad_reads(s: Seq<char>, i: int, n: int, k: nat)
    requires
        0 <= n < crate::text::pow10(k),
        0 <= i,
        i + k <= s.len(),
        s.subrange(i, i + k as int) == crate::text::dec_str_pad(n, k),
    ensures
        digits_val(s, i, i + k as int) == n,
    decreases k,
{
    let t = crate::text::dec_str_pad(n, k);
    crate::text::lemma_dec_str_pad_digits(n, k);
    if k == 0 {
    } else {
        let j = i + k as int;
        assert(s[j - 1] == t[k - 1]) by {
            assert(s.subrange(i, j)[k - 1] == s[j - 1]);
        };
        let t0 = crate::text::dec_str_pad(n / 10, (k - 1) as nat);
        crate::text::lemma_dec_str_pad_digits(n / 10, (k - 1) as nat);
        assert(s.subrange(i, j - 1) =~= t0) by {
            assert(forall|m: int|
                0 <= m < k - 1 ==> s.subrange(i, j - 1)[m] == s.subrange(i, j)[m]);
        };
        assert(n / 10 < crate::text::pow10((k - 1) as nat)) by {
            assert(crate::text::pow10(k) == 10 * crate::text::pow10((k - 1) as nat));
        };
        lemma_dec_str_pad_reads(s, i, n / 10, (k - 1) as nat);
        crate::text::lemma_digit_char_val(n % 10);
    }
}

/// Blanks that separate words.
pub open spec fn is_space(c: char) -> bool {
    c == ' ' || c == '\t'
}

/// Decimal digit characters.
pub open spec fn is_digit(c: char) -> bool {
    48 <= c as u32 <= 57
}

/// The numeric value of a digit character.
pub open spec fn digit_val(c: char) -> int
    recommends
        is_digit(c),
{
    c as u32 - 48
}

/// Upper-case command letters.
pub open spec fn is_letter(c: char) -> bool {
    65 <= c as u32 <= 90
}

/// The first position at or after `i` that does not hold a blank.
pub open spec fn skip_spaces(s: Seq<char>, i: int) -> int
    recommends
        0 <= i <= s.len(),
    decreases s.len() - i,
{
    if i < s.len() && is_space(s[i]) {
        skip_spaces(s, i + 1)
    } else {
        i
    }
}

/// The first position at or after `i` that holds a blank, or the end.
pub open spec fn token_end(s: Seq<char>, i: int) -> int
    recommends
        0 <= i <= s.len(),
    decreases s.len() - i,
{
    if i < s.len() && !is_space(s[i]) {
        token_end(s, i + 1)
    } else {
        i
    }
}

/// The first position in `[i, j)` that does not hold a digit, or `j`.
pub open spec fn digits_end(s: Seq<char>, i: int, j: int) -> int
    recommends
        0 <= i <= j <= s.len(),
    decreases j - i,
{
    if i < j && is_digit(s[i]) {
        digits_end(s, i + 1, j)
    } else {
        i
    }
}

/// The number written by the digits in `[i, j)`.
pub open spec fn digits_val(s: Seq<char>, i: int, j: int) -> int
    recommends
        0 <= i <= j <= s.len(),
    decreases j - i,
{
    if i < j {
        digits_val(s, i, j - 1) * 10 + digit_val(s[j - 1])
    } else {
        0
    }
}

/// The raw fixed-point reading of the numeral `ival.fval` with `k`
/// fractional digits and the given sign, or `Overflow` when it does not
/// fit the thirty-two-bit raw range.
pub open spec fn number_raw(neg: bool, ival: int, fval: int, k: nat) -> Result<int, ParseError> {
    let num = ival * pow10(k) + fval;
    let m = round_raw(num, k);
    if !neg && m > 0x7FFF_FFFF {
        Err(ParseError::Overflow)
    } else if neg && m > 0x8000_0000 {
        Err(ParseError::Overflow)
    } else if neg {
        Ok(-m)
    } else {
        Ok(m)
    }
}

/// Reads the numeral in `[i, j)`: an optional minus sign, one to six
/// integer digits, and optionally a point with one to nine fractional
/// digits.
pub open spec fn parse_number(s: Seq<char>, i: int, j: int) -> Result<int, ParseError>
    recommends
        0 <= i <= j <= s.len(),
{
    let neg = i < j && s[i] == '-';
    let i1 = if neg {
        i + 1
    } else {
        i
    };
    let e = digits_end(s, i1, j);
    if e == i1 {
        Err(ParseError::Syntax)
    } else if e - i1 > 6 {
        Err(ParseError::Overflow)
    } else if e == j {
        number_raw(neg, digits_val(s, i1, e), 0, 0)
    } else if s[e] == '.' {
        let f = digits_end(s, e + 1, j);
        if f != j || f == e + 1 {
            Err(ParseError::Syntax)
        } else if f - (e + 1) > 9 {
            Err(ParseError::Overflow)
        } else {
            number_raw(neg, digits_val(s, i1, e), digits_val(s, e + 1, f), (f - e - 1) as nat)
        }
    } else {
        Err(ParseError::Syntax)
    }
}

/// Reads the word in `[i, j)`: an upper-case letter and its numeral.
pub open spec fn parse_word(s: Seq<char>, i: int, j: int) -> Result<Word, ParseError>
    recommends
        0 <= i < j <= s.len(),
{
    if !is_letter(s[i]) {
        Err(ParseError::Syntax)
    } else {
        match parse_number(s, i + 1, j) {
            Err(e) => Err(e),
            Ok(raw) => Ok(Word { letter: s[i], value: Value { raw: raw as i32 } }),
        }
    }
}

/// Reads every word from position `i` to the end of the line.
pub open spec fn parse_words(s: Seq<char>, i: int) -> Result<Seq<Word>, ParseError>
    recommends
        0 <= i <= s.len(),
    decreases s.len() - i
        when 0 <= i <= s.len()
        via parse_words_decreases
{
    let st = skip_spaces(s, i);
    if st >= s.len() {
        Ok(Seq::empty())
    } else {
        let j = token_end(s, st);
        match parse_word(s, st, j) {
            Err(e) => Err(e),
            Ok(w) => match parse_words(s, j) {
                Err(e) => Err(e),
                Ok(ws) => Ok(seq![w] + ws),
            },
        }
    }
}

#[via_fn]
proof fn parse_words_decreases(s: Seq<char>, i: int) {
    lemma_skip_spaces(s, i);
    let st = skip_spaces(s, i);
    if st < s.len() {
        lemma_token_end(s, st);
    }
}

/// What a whole line of text means: its command word and its arguments.
pub open spec fn spec_parse_line(s: Seq<char>) -> Result<(Option<Word>, Seq<Word>), ParseError> {
    match parse_words(s, 0) {
        Err(e) => Err(e),
        Ok(ws) => if ws.len() == 0 {
            Ok((None, Seq::empty()))
        } else {
            Ok((Some(ws[0]), ws.subrange(1, ws.len() as int)))
        },
    }
}

/// Where the blanks stop: bounds and the character found there.
pub proof fn lemma_skip_spaces(s: Seq<char>, i: int)
    requires
        0 <= i <= s.len(),
    ensures
        i <= skip_spaces(s, i) <= s.len(),
        skip_spaces(s, i) < s.len() ==> !is_space(s[skip_spaces(s, i)]),
    decreases s.len() - i,
{
    if i < s.len() && is_space(s[i]) {
        lemma_skip_spaces(s, i + 1);
    }
}

/// Where a token stops: bounds, progress, and the blank found there.
pub proof fn lemma_token_end(s: Seq<char>, i: int)
    requires
        0 <= i <= s.len(),
    ensures
        i <= token_end(s, i) <= s.len(),
        i < s.len() && !is_space(s[i]) ==> token_end(s, i) > i,
        token_end(s, i) < s.len() ==> is_space(s[token_end(s, i)]),
    decreases s.len() - i,
{
    if i < s.len() && !is_space(s[i]) {
        lemma_token_end(s, i + 1);
    }
}

/// Where the digits stop: bounds and what lies on each side.
pub proof fn lemma_digits_end(s: Seq<char>, i: int, j: int)
    requires
        0 <= i <= j <= s.len(),
    ensures
        i <= digits_end(s, i, j) <= j,
        forall|m: int| i <= m < digits_end(s, i, j) ==> is_digit(s[m]),
        digits_end(s, i, j) < j ==> !is_digit(s[digits_end(s, i, j)]),
    decreases j - i,
{
    if i < j && is_digit(s[i]) {
        lemma_digits_end(s, i + 1, j);
    }
}

/// A run of `n` digits writes a number below ten to the `n`.
pub proof fn lemma_digits_val_bound(s: Seq<char>, i: int, j: int)
    requires
        0 <= i <= j <= s.len(),
        forall|m: int| i <= m < j ==> is_digit(s[m]),
    ensures
        0 <= digits_val(s, i, j) < pow10((j - i) as nat),
    decreases j - i,
{
    if i < j {
        lemma_digits_val_bound(s, i, j - 1);
        assert(pow10((j - i) as nat) == 10 * pow10((j - i - 1) as nat));
    }
}

/// Whether a character is a blank.
fn is_space_exec(c: char) -> (r: bool)
    ensures
        r == is_space(c),
{
    c == ' ' || c == '\t'
}

/// Whether a character is a decimal digit.
fn is_digit_exec(c: char) -> (r: bool)
    ensures
        r == is_digit(c),
{
    let u: u32 = c as u32;
    48 <= u && u <= 57
}

/// The characters of a text slice, in order.
pub fn str_to_chars(s: &str) -> (v: Vec<char>)
    ensures
        v@ == s@,
{
    let n: usize = s.unicode_len();
    let mut v: Vec<char> = Vec::new();
    let mut i: usize = 0;
    while i < n
        invariant
            i <= n == s@.len(),
            v@ == s@.subrange(0, i as int),
        decreases n - i,
    {
        let c: char = s.get_char(i);
        v.push(c);
        proof {
            assert(v@ =~= s@.subrange(0, i + 1));
        }
        i = i + 1;
    }
    proof {
        assert(v@ =~= s@);
    }
    v
}

/// Finds the end of the blanks starting at `i`.
fn skip_spaces_exec(s: &Vec<char>, i: usize) -> (r: usize)
    requires
        i <= s@.len(),
    ensures
        r == skip_spaces(s@, i as int),
        i <= r <= s@.len(),
        r < s@.len() ==> !is_space(s@[r as int]),
{
    let mut cur: usize = i;
    while cur < s.len() && is_space_exec(s[cur])
        invariant
            i <= cur <= s@.len(),
            skip_spaces(s@, i as int) == skip_spaces(s@, cur as int),
        decreases s@.len() - cur,
    {
        cur = cur + 1;
    }
    cur
}

/// Finds the end of the token starting at `i`.
fn token_end_exec(s: &Vec<char>, i: usize) -> (r: usize)
    requires
        i <= s@.len(),
    ensures
        r == token_end(s@, i as int),
        i <= r <= s@.len(),
    {
    let mut cur: usize = i;
    while cur < s.len() && !is_space_exec(s[cur])
        invariant
            i <= cur <= s@.len(),
            token_end(s@, i as int) == token_end(s@, cur as int),
        decreases s@.len() - cur,
    {
        cur = cur + 1;
    }
    cur
}

/// Finds the end of the digit run starting at `i`, within `[i, j)`.
fn digits_end_exec(s: &Vec<char>, i: usize, j: usize) -> (r: usize)
    requires
        i <= j <= s@.len(),
    ensures
        r == digits_end(s@, i as int, j as int),
        i <= r <= j,
{
    let mut cur: usize = i;
    while cur < j && is_digit_exec(s[cur])
        invariant
            i <= cur <= j <= s@.len(),
            digits_end(s@, i as int, j as int) == digits_end(s@, cur as int, j as int),
        decreases j - cur,
    {
        cur = cur + 1;
    }
    cur
}

/// Reads the number written by the digits in `[i, j)`; at most nine of
/// them, so the fold stays far from overflow.
fn digits_val_exec(s: &Vec<char>, i: usize, j: usize) -> (r: u64)
    requires
        i <= j <= s@.len(),
        j - i <= 9,
        forall|m: int| i <= m < j ==> is_digit(s@[m]),
    ensures
        r == digits_val(s@, i as int, j as int),
        r < pow10((j - i) as nat),
{
    proof {
        lemma_digits_val_bound(s@, i as int, j as int);
    }
    let mut cur: usize = i;
    let mut acc: u64 = 0;
    while cur < j
        invariant
            i <= cur <= j <= s@.len(),
            j - i <= 9,
            forall|m: int| i <= m < j ==> is_digit(s@[m]),
            acc == digits_val(s@, i as int, cur as int),
            acc < pow10((cur - i) as nat),
        decreases j - cur,
    {
        proof {
            lemma_digits_val_bound(s@, i as int, cur + 1);
            crate::text::lemma_pow10_le((cur + 1 - i) as nat, 9);
            assert(pow10(9) == 1000000000) by {
                reveal_with_fuel(pow10, 10);
            };
        }
        let d: u32 = s[cur] as u32 - 48;
        acc = acc * 10 + d as u64;
        cur = cur + 1;
    }
    acc
}

/// Turns sign, digits and fraction into the raw fixed-point reading.
fn number_raw_exec(neg: bool, ival: u64, fval: u64, k: usize) -> (r: Result<i32, ParseError>)
    requires
        ival < 1000000,
        k <= 9,
        fval < pow10(k as nat),
    ensures
        match r {
            Ok(v) => number_raw(neg, ival as int, fval as int, k as nat) == Ok::<int, ParseError>(
                v as int,
            ),
            Err(e) => number_raw(neg, ival as int, fval as int, k as nat) == Err::<
                int,
                ParseError,
            >(e),
        },
{
    let p: u128 = crate::text::pow10_exec(k);
    proof {
        crate::text::lemma_pow10_le(k as nat, 9);
        assert(pow10(9) == 1000000000) by {
            reveal_with_fuel(pow10, 10);
        };
        assert((ival as int) * (p as int) <= 1000000 * 1000000000) by (nonlinear_arith)
            requires
                0 <= ival as int <= 1000000,
                0 <= p as int <= 1000000000,
        ;
    }
    let num: u128 = (ival as u128) * p + (fval as u128);
    let m: u128 = (2 * num * 65536 + p) / (2 * p);
    proof {
        assert(2 * (num as int) * 65536 <= 2 * 1000000000000001000 * 65536) by (nonlinear_arith)
            requires
                0 <= num as int <= 1000000000000001000,
        ;
        assert(num == (ival as int) * pow10(k as nat) + fval);
        assert(m == round_raw(num as int, k as nat));
    }
    if !neg && m > 0x7FFF_FFFF {
        Err(ParseError::Overflow)
    } else if neg && m > 0x8000_0000 {
        Err(ParseError::Overflow)
    } else if neg {
        Ok((-(m as i64)) as i32)
    } else {
        Ok(m as i32)
    }
}

/// Reads the numeral in `[i, j)`.
fn parse_number_exec(s: &Vec<char>, i: usize, j: usize) -> (r: Result<i32, ParseError>)
    requires
        i <= j <= s@.len(),
    ensures
        match r {
            Ok(v) => parse_number(s@, i as int, j as int) == Ok::<int, ParseError>(v as int),
            Err(e) => parse_number(s@, i as int, j as int) == Err::<int, ParseError>(e),
        },
{
    let neg: bool = i < j && s[i] == '-';
    let i1: usize = if neg {
        i + 1
    } else {
        i
    };
    let e: usize = digits_end_exec(s, i1, j);
    proof {
        lemma_digits_end(s@, i1 as int, j as int);
    }
    if e == i1 {
        Err(ParseError::Syntax)
    } else if e - i1 > 6 {
        Err(ParseError::Overflow)
    } else {
        let ival: u64 = digits_val_exec(s, i1, e);
        proof {
            crate::text::lemma_pow10_le((e - i1) as nat, 6);
            assert(pow10(6) == 1000000) by {
                reveal_with_fuel(pow10, 7);
            };
        }
        if e == j {
            number_raw_exec(neg, ival, 0, 0)
        } else if s[e] == '.' {
            let f: usize = digits_end_exec(s, e + 1, j);
            proof {
                lemma_digits_end(s@, e + 1, j as int);
            }
            if f != j || f == e + 1 {
                Err(ParseError::Syntax)
            } else if f - (e + 1) > 9 {
                Err(ParseError::Overflow)
            } else {
                let fval: u64 = digits_val_exec(s, e + 1, f);
                number_raw_exec(neg, ival, fval, f - e - 1)
            }
        } else {
            Err(ParseError::Syntax)
        }
    }
}

/// Reads the word in `[i, j)`.
fn parse_word_exec(s: &Vec<char>, i: usize, j: usize) -> (r: Result<Word, ParseError>)
    requires
        i < j <= s@.len(),
    ensures
        match r {
            Ok(w) => parse_word(s@, i as int, j as int) == Ok::<Word, ParseError>(w),
            Err(e) => parse_word(s@, i as int, j as int) == Err::<Word, ParseError>(e),
        },
{
    let c: char = s[i];
    let u: u32 = c as u32;
    if !(65 <= u && u <= 90) {
        Err(ParseError::Syntax)
    } else {
        match parse_number_exec(s, i + 1, j) {
            Err(e) => Err(e),
            Ok(raw) => Ok(Word { letter: c, value: Value { raw } }),
        }
    }
}

/// Joins the words already read with what the rest of the line holds.
pub open spec fn words_join(pre: Seq<Word>, rest: Result<Seq<Word>, ParseError>) -> Result<
    Seq<Word>,
    ParseError,
> {
    match rest {
        Ok(ws) => Ok(pre + ws),
        Err(e) => Err(e),
    }
}

/// Reads every word of the line.
fn parse_words_exec(s: &Vec<char>) -> (r: Result<Vec<Word>, ParseError>)
    ensures
        match r {
            Ok(ws) => parse_words(s@, 0) == Ok::<Seq<Word>, ParseError>(ws@),
            Err(e) => parse_words(s@, 0) == Err::<Seq<Word>, ParseError>(e),
        },
{
    let mut cur: usize = 0;
    let mut acc: Vec<Word> = Vec::new();
    loop
        invariant
            cur <= s@.len(),
            parse_words(s@, 0) == words_join(acc@, parse_words(s@, cur as int)),
        decreases s@.len() - cur,
    {
        let st: usize = skip_spaces_exec(s, cur);
        if st >= s.len() {
            proof {
                assert(parse_words(s@, cur as int) == Ok::<Seq<Word>, ParseError>(Seq::empty()));
                assert(acc@ + Seq::<Word>::empty() =~= acc@);
            }
            return Ok(acc);
        }
        let j: usize = token_end_exec(s, st);
        proof {
            lemma_token_end(s@, st as int);
        }
        match parse_word_exec(s, st, j) {
            Err(e) => {
                proof {
                    assert(parse_words(s@, cur as int) == Err::<Seq<Word>, ParseError>(e));
                }
                return Err(e);
            },
            Ok(w) => {
                proof {
                    match parse_words(s@, j as int) {
                        Ok(ws) => {
                            assert(parse_words(s@, cur as int) == Ok::<Seq<Word>, ParseError>(
                                seq![w] + ws,
                            ));
                            assert(acc@ + (seq![w] + ws) =~= acc@.push(w) + ws);
                        },
                        Err(_) => {},
                    }
                }
                acc.push(w);
                cur = j;
            },
        }
    }
}

/// Reads one framed line of text as a command line.
pub fn parse_line(s: &str) -> (r: Result<Line, ParseError>)
    ensures
        match r {
            Ok(l) => spec_parse_line(s@) == Ok::<(Option<Word>, Seq<Word>), ParseError>(
                (l.command, l.arguments@),
            ),
            Err(e) => spec_parse_line(s@) == Err::<(Option<Word>, Seq<Word>), ParseError>(e),
        },
{
    let chars = str_to_chars(s);
    match parse_words_exec(&chars) {
        Err(e) => Err(e),
        Ok(mut ws) => {
            if ws.len() == 0 {
                Ok(Line { command: None, arguments: ws })
            } else {
                let cmd: Word = ws.remove(0);
                proof {
                    assert(ws@ =~= parse_words(s@, 0)->Ok_0.subrange(
                        1,
                        parse_words(s@, 0)->Ok_0.len() as int,
                    ));
                }
                Ok(Line { command: Some(cmd), arguments: ws })
            }
        },
    }
}

} // verus!
