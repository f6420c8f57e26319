use vstd::prelude::*;

use crate::error::{agrees, agrees_tail, agrees_view, agrees_view_tail, PgnError};
use crate::text::{
    chars_of, digits_end, is_ascii_digit, is_ascii_digit_exec,
    lemma_digits_end_bounds, rest_of, scan_digits,
};

verus! {

pub open spec fn digit_value(c: char) -> int {
    c as u32 as int - 48
}

/// The number that a run of decimal digits denotes.
pub open spec fn decimal_value(d: Seq<char>) -> int
    decreases d.len(),
{
    if d.len() == 0 {
        0
    } else {
        decimal_value(d.drop_last()) * 10 + digit_value(d.last())
    }
}

/// The digits of `s` from index `i` up to index `j`, read as an `i32`; `ctx`
/// names what the number is for.
pub open spec fn spec_integer(s: Seq<char>, i: int, j: int, ctx: &'static str) -> Result<
    i32,
    PgnError,
> {
    if decimal_value(s.subrange(i, j)) <= i32::MAX {
        Ok(decimal_value(s.subrange(i, j)) as i32)
    } else {
        Err(PgnError::ParseIntError(ctx))
    }
}

proof fn lemma_decimal_value_step(s: Seq<char>, i: int, k: int)
    requires
        0 <= i <= k < s.len(),
    ensures
        decimal_value(s.subrange(i, k + 1)) == decimal_value(s.subrange(i, k)) * 10 + digit_value(
            s[k],
        ),
{
    assert(s.subrange(i, k + 1).drop_last() =~= s.subrange(i, k));
}

pub proof fn lemma_decimal_value_grows(s: Seq<char>, i: int, k: int, j: int)
    requires
        0 <= i <= k <= j <= s.len(),
        forall|m: int| i <= m < j ==> is_ascii_digit(#[trigger] s[m]),
    ensures
        0 <= decimal_value(s.subrange(i, k)) <= decimal_value(s.subrange(i, j)),
    decreases j - i,
{
    if j > i {
        lemma_decimal_value_step(s, i, j - 1);
        if k < j {
            lemma_decimal_value_grows(s, i, k, j - 1);
        } else {
            lemma_decimal_value_grows(s, i, j - 1, j - 1);
        }
    } else {
        assert(s.subrange(i, j).len() == 0);
    }
}

/// Reads the digits of `s` from index `i` up to index `j` as an `i32`.
pub fn parse_integer(s: &[char], i: usize, j: usize, ctx: &'static str) -> (r: Result<
    i32,
    PgnError,
>)
    requires
        i <= j <= s@.len(),
        forall|m: int| i <= m < j ==> is_ascii_digit(#[trigger] s@[m]),
    ensures
        r == spec_integer(s@, i as int, j as int, ctx),
{
    let mut acc: i32 = 0;
    let mut k = i;
    while k < j
        invariant
            i <= k <= j <= s@.len(),
            forall|m: int| i <= m < j ==> is_ascii_digit(#[trigger] s@[m]),
            acc as int == decimal_value(s@.subrange(i as int, k as int)),
            0 <= acc,
        decreases j - k,
    {
        let d = (s[k] as u32 - '0' as u32) as i32;
        proof {
            lemma_decimal_value_step(s@, i as int, k as int);
        }
        assert(0 <= d <= 9);
        if acc > (i32::MAX - d) / 10 {
            proof {
                lemma_decimal_value_grows(s@, i as int, k + 1, j as int);
                assert(acc * 10 + d > i32::MAX) by (nonlinear_arith)
                    requires
                        acc > (i32::MAX - d) / 10,
                        0 <= d <= 9,
                ;
            }
            return Err(PgnError::ParseIntError(ctx));
        }
        assert(acc * 10 + d <= i32::MAX) by (nonlinear_arith)
            requires
                acc <= (i32::MAX - d) / 10,
                0 <= acc,
                0 <= d <= 9,
        ;
        acc = acc * 10 + d;
        k = k + 1;
    }
    Ok(acc)
}

/// A numeric annotation glyph: `$` followed by a decimal integer.
#[derive(Debug, PartialEq, Eq, Structural, Clone, Copy)]
pub struct NumericAnnotationGlyph {
    pub value: i32,
}

/// The glyph that starts at index `i` of `s`, and the index after it.
pub open spec fn spec_nag(s: Seq<char>, i: int) -> Result<(NumericAnnotationGlyph, int), PgnError> {
    if i >= s.len() {
        Err(PgnError::UnexpectedEOF("numeric annotation glyph"))
    } else if s[i] != '$' {
        Err(PgnError::UnexpectedInput("numeric annotation glyph", s[i]))
    } else if i + 1 >= s.len() {
        Err(PgnError::UnexpectedEOF("numeric annotation glyph"))
    } else if !is_ascii_digit(s[i + 1]) {
        Err(PgnError::UnexpectedInput("numeric annotation glyph", s[i + 1]))
    } else {
        match spec_integer(s, i + 1, digits_end(s, i + 1), "numeric annotation glyph") {
            Ok(v) => Ok((NumericAnnotationGlyph { value: v }, digits_end(s, i + 1))),
            Err(e) => Err(e),
        }
    }
}

impl NumericAnnotationGlyph {
    /// Whether `s` starts with `$`.
    pub fn check_start(s: &str) -> (r: bool)
        ensures
            r == (s@.len() > 0 && s@[0] == '$'),
    {
        match crate::text::first_char(s) {
            Some(c) => c == '$',
            None => false,
        }
    }

    /// Parses the glyph at index `i` of `s`.
    pub fn parse_at(s: &[char], i: usize) -> (r: Result<(NumericAnnotationGlyph, usize), PgnError>)
        requires
            i <= s@.len(),
        ensures
            agrees(r, spec_nag(s@, i as int)),
            r matches Ok((_, j)) ==> i < j <= s@.len(),
    {
        if i >= s.len() {
            return Err(PgnError::UnexpectedEOF("numeric annotation glyph"));
        }
        if s[i] != '$' {
            return Err(PgnError::UnexpectedInput("numeric annotation glyph", s[i]));
        }
        if i + 1 >= s.len() {
            return Err(PgnError::UnexpectedEOF("numeric annotation glyph"));
        }
        if !is_ascii_digit_exec(s[i + 1]) {
            return Err(PgnError::UnexpectedInput("numeric annotation glyph", s[i + 1]));
        }
        let e = scan_digits(s, i + 1);
        proof {
            lemma_digits_end_bounds(s@, i + 1);
        }
        match parse_integer(s, i + 1, e, "numeric annotation glyph") {
            Ok(v) => Ok((NumericAnnotationGlyph { value: v }, e)),
            Err(x) => Err(x),
        }
    }

    /// Parses the glyph at the start of `s`; returns it and the rest of `s`.
    pub fn parse(s: &str) -> (r: Result<(NumericAnnotationGlyph, &str), PgnError>)
        ensures
            agrees_tail(s@, r, spec_nag(s@, 0)),
    {
        let v = chars_of(s);
        match NumericAnnotationGlyph::parse_at(v.as_slice(), 0) {
            Ok((g, j)) => Ok((g, rest_of(s, j, v.len()))),
            Err(e) => Err(e),
        }
    }
}

/// Printable ASCII: U+0020 to U+007E.
pub open spec fn is_printable(c: char) -> bool {
    ' ' <= c && c <= '~'
}

/// Reads the body of a quoted string from index `j` of `s` up to its closing quote:
/// the characters it denotes and the index of the closing quote.
pub open spec fn spec_string_body(s: Seq<char>, j: int) -> Result<(Seq<char>, int), PgnError>
    decreases s.len() - j,
{
    if j < 0 || j >= s.len() {
        Err(PgnError::UnexpectedEOF("string"))
    } else if s[j] == '"' {
        Ok((Seq::empty(), j))
    } else if s[j] == '\\' {
        if j + 1 >= s.len() {
            Err(PgnError::UnexpectedEOF("string"))
        } else if s[j + 1] == '\\' || s[j + 1] == '"' {
            match spec_string_body(s, j + 2) {
                Ok((b, e)) => Ok((seq![s[j + 1]] + b, e)),
                Err(x) => Err(x),
            }
        } else {
            Err(PgnError::InvalidStringChar("string", s[j + 1]))
        }
    } else if is_printable(s[j]) {
        match spec_string_body(s, j + 1) {
            Ok((b, e)) => Ok((seq![s[j]] + b, e)),
            Err(x) => Err(x),
        }
    } else {
        Err(PgnError::InvalidStringChar("string", s[j]))
    }
}

/// The longest string value that the grammar admits.
pub const MAX_STRING_LEN: usize = 255;

/// The quoted string that starts at index `i` of `s`: its value and the index
/// after the closing quote.
pub open spec fn spec_string(s: Seq<char>, i: int) -> Result<(Seq<char>, int), PgnError> {
    if i >= s.len() {
        Err(PgnError::UnexpectedEOF("string"))
    } else if s[i] != '"' {
        Err(PgnError::UnexpectedInput("string", s[i]))
    } else {
        match spec_string_body(s, i + 1) {
            Ok((b, e)) => if b.len() > MAX_STRING_LEN {
                Err(PgnError::StringTooLong("string"))
            } else {
                Ok((b, e + 1))
            },
            Err(x) => Err(x),
        }
    }
}

proof fn lemma_string_body_bounds(s: Seq<char>, j: int)
    requires
        0 <= j,
    ensures
        spec_string_body(s, j) matches Ok((b, e)) ==> j <= e < s.len() && s[e] == '"' && b.len()
            <= e - j,
    decreases s.len() - j,
{
    if 0 <= j < s.len() && s[j] != '"' {
        if s[j] == '\\' {
            if j + 1 < s.len() {
                lemma_string_body_bounds(s, j + 2);
            }
        } else {
            lemma_string_body_bounds(s, j + 1);
        }
    }
}

/// The quoted-string body that denotes `v`: `"` and `\\` get a `\\` before them.
pub open spec fn escape_body(v: Seq<char>) -> Seq<char>
    decreases v.len(),
{
    if v.len() == 0 {
        Seq::empty()
    } else if v[0] == '"' || v[0] == '\\' {
        seq!['\\', v[0]] + escape_body(v.drop_first())
    } else {
        seq![v[0]] + escape_body(v.drop_first())
    }
}

proof fn lemma_string_body_of_escape(pre: Seq<char>, v: Seq<char>, rest: Seq<char>)
    requires
        forall|k: int| 0 <= k < v.len() ==> is_printable(#[trigger] v[k]),
    ensures
        spec_string_body(pre + escape_body(v) + seq!['"'] + rest, pre.len() as int) == Ok::<
            (Seq<char>, int),
            PgnError,
        >((v, (pre.len() + escape_body(v).len()) as int)),
    decreases v.len(),
{
    let s = pre + escape_body(v) + seq!['"'] + rest;
    let j = pre.len() as int;
    if v.len() == 0 {
        assert(s[j] == '"');
        assert(v =~= Seq::<char>::empty());
    } else {
        let c = v[0];
        let tail = v.drop_first();
        assert forall|k: int| 0 <= k < tail.len() implies is_printable(#[trigger] tail[k]) by {
            assert(tail[k] == v[k + 1]);
        }
        assert(v =~= seq![c] + tail);
        if c == '"' || c == '\\' {
            let pre2 = pre + seq!['\\', c];
            assert(escape_body(v) == seq!['\\', c] + escape_body(tail));
            assert(s =~= pre2 + escape_body(tail) + seq!['"'] + rest);
            assert(s[j] == '\\' && s[j + 1] == c);
            lemma_string_body_of_escape(pre2, tail, rest);
            assert(spec_string_body(s, j + 2) == Ok::<(Seq<char>, int), PgnError>(
                (tail, (pre2.len() + escape_body(tail).len()) as int),
            ));
        } else {
            let pre2 = pre + seq![c];
            assert(escape_body(v) == seq![c] + escape_body(tail));
            assert(s =~= pre2 + escape_body(tail) + seq!['"'] + rest);
            assert(s[j] == c);
            lemma_string_body_of_escape(pre2, tail, rest);
            assert(spec_string_body(s, j + 1) == Ok::<(Seq<char>, int), PgnError>(
                (tail, (pre2.len() + escape_body(tail).len()) as int),
            ));
        }
    }
}

/// A value of printable characters, escaped and put between quotes, reads back
/// as itself when it holds at most 255 characters, and is a length violation
/// when it holds more.
pub proof fn lemma_string_round_trip(v: Seq<char>, rest: Seq<char>)
    requires
        forall|k: int| 0 <= k < v.len() ==> is_printable(#[trigger] v[k]),
    ensures
        v.len() <= MAX_STRING_LEN ==> spec_string(
            seq!['"'] + escape_body(v) + seq!['"'] + rest,
            0,
        ) == Ok::<(Seq<char>, int), PgnError>((v, (escape_body(v).len() + 2) as int)),
        v.len() > MAX_STRING_LEN ==> spec_string(
            seq!['"'] + escape_body(v) + seq!['"'] + rest,
            0,
        ) == Err::<(Seq<char>, int), PgnError>(PgnError::StringTooLong("string")),
{
    lemma_string_body_of_escape(seq!['"'], v, rest);
    let s = seq!['"'] + escape_body(v) + seq!['"'] + rest;
    assert(s[0] == '"');
}

fn is_printable_exec(c: char) -> (r: bool)
    ensures
        r == is_printable(c),
{
    ' ' <= c && c <= '~'
}

/// Parses the quoted string at index `i` of `s`: its value and the index after
/// the closing quote.
pub fn parse_pgn_string_at(s: &[char], i: usize) -> (r: Result<(String, usize), PgnError>)
    requires
        i <= s@.len(),
    ensures
        agrees_view(r, spec_string(s@, i as int)),
        r matches Ok((_, j)) ==> i < j <= s@.len(),
{
    if i >= s.len() {
        return Err(PgnError::UnexpectedEOF("string"));
    }
    if s[i] != '"' {
        return Err(PgnError::UnexpectedInput("string", s[i]));
    }
    let mut out = String::new();
    let mut n: usize = 0;
    let mut j = i + 1;
    loop
        invariant
            i < j <= s@.len() + 1,
            i < s@.len(),
            s@[i as int] == '"',
            n == out@.len(),
            n <= j - i,
            j <= s@.len() || spec_string_body(s@, j as int) is Err,
            match spec_string_body(s@, j as int) {
                Ok((b, e)) => spec_string_body(s@, i + 1) == Ok::<(Seq<char>, int), PgnError>(
                    (out@ + b, e),
                ),
                Err(x) => spec_string_body(s@, i + 1) == Err::<(Seq<char>, int), PgnError>(x),
            },
        decreases s@.len() + 1 - j,
    {
        if j >= s.len() {
            assert(spec_string_body(s@, j as int) == Err::<(Seq<char>, int), PgnError>(
                PgnError::UnexpectedEOF("string"),
            ));
            return Err(PgnError::UnexpectedEOF("string"));
        }
        let c = s[j];
        if c == '"' {
            assert(out@ + Seq::<char>::empty() =~= out@);
            proof {
                lemma_string_body_bounds(s@, i + 1);
            }
            if n <= MAX_STRING_LEN {
                return Ok((out, j + 1));
            }
            return Err(PgnError::StringTooLong("string"));
        } else if c == '\\' {
            if j + 1 >= s.len() {
                assert(spec_string_body(s@, j as int) == Err::<(Seq<char>, int), PgnError>(
                    PgnError::UnexpectedEOF("string"),
                ));
                return Err(PgnError::UnexpectedEOF("string"));
            }
            let d = s[j + 1];
            if d == '\\' || d == '"' {
                proof {
                    let rest = spec_string_body(s@, j + 2);
                    if rest is Ok {
                        assert(out@.push(d) + rest->Ok_0.0 =~= out@ + (seq![d] + rest->Ok_0.0));
                    }
                }
                out.push(d);
                n = n + 1;
                j = j + 2;
            } else {
                assert(spec_string_body(s@, j as int) == Err::<(Seq<char>, int), PgnError>(
                    PgnError::InvalidStringChar("string", d),
                ));
                return Err(PgnError::InvalidStringChar("string", d));
            }
        } else if is_printable_exec(c) {
            proof {
                let rest = spec_string_body(s@, j + 1);
                if rest is Ok {
                    assert(out@.push(c) + rest->Ok_0.0 =~= out@ + (seq![c] + rest->Ok_0.0));
                }
            }
            out.push(c);
            n = n + 1;
            j = j + 1;
        } else {
            assert(spec_string_body(s@, j as int) == Err::<(Seq<char>, int), PgnError>(
                PgnError::InvalidStringChar("string", c),
            ));
            return Err(PgnError::InvalidStringChar("string", c));
        }
    }
}

/// Parses the quoted string at the start of `s`; returns its value and the rest of `s`.
pub fn parse_pgn_string(s: &str) -> (r: Result<(String, &str), PgnError>)
    ensures
        agrees_view_tail(s@, r, spec_string(s@, 0)),
{
    let v = chars_of(s);
    match parse_pgn_string_at(v.as_slice(), 0) {
        Ok((t, j)) => Ok((t, rest_of(s, j, v.len()))),
        Err(e) => Err(e),
    }
}

} // verus!
