use vstd::prelude::*;

use crate::error::{agrees, agrees_tail, agrees_view, agrees_view_tail, PgnError};
use crate::san_move::board::{is_file_char, is_rank_char};
use crate::san_move::piece::is_piece_char;
use crate::san_move::{spec_san_move, SanMove};
use crate::symbol::{spec_symbol, Symbol};
use crate::text::{
    at_is, char_at_is, chars_of, digits_end, first_char, has_at, has_at_exec, is_ascii_alphanumeric,
    is_ascii_alphanumeric_exec, is_ascii_digit, is_ascii_digit_exec, lemma_digits_end_bounds,
    rest_of, scan_digits, skip_white, skip_whitespace, string_of,
};
use crate::tokens::{
    decimal_value, digit_value, lemma_decimal_value_grows, parse_integer, spec_integer, spec_nag, NumericAnnotationGlyph,
};

verus! {

/// How a game ended: `1-0`, `0-1`, `1/2-1/2`, or `*` for a game without a result.
#[derive(Debug, PartialEq, Eq, Structural, Clone, Copy)]
pub enum GameTermination {
    WhiteWins,
    BlackWins,
    Tie,
    Unterminated,
}

pub open spec fn white_wins_text() -> Seq<char> {
    seq!['1', '-', '0']
}

pub open spec fn black_wins_text() -> Seq<char> {
    seq!['0', '-', '1']
}

pub open spec fn tie_text() -> Seq<char> {
    seq!['1', '/', '2', '-', '1', '/', '2']
}

/// What follows the leading `1` of a tie.
pub open spec fn tie_suffix_text() -> Seq<char> {
    seq!['/', '2', '-', '1', '/', '2']
}

/// The game-termination marker at index `i` of `s`, and the index after it.
pub open spec fn spec_game_termination(s: Seq<char>, i: int) -> Result<(GameTermination, int), PgnError> {
    if has_at(s, i, white_wins_text()) {
        Ok((GameTermination::WhiteWins, i + 3))
    } else if has_at(s, i, black_wins_text()) {
        Ok((GameTermination::BlackWins, i + 3))
    } else if has_at(s, i, tie_text()) {
        Ok((GameTermination::Tie, i + 7))
    } else if at_is(s, i, '*') {
        Ok((GameTermination::Unterminated, i + 1))
    } else if i >= s.len() {
        Err(PgnError::UnexpectedEOF("game termination"))
    } else {
        Err(PgnError::UnexpectedInput("game termination", s[i]))
    }
}

/// `Some` of what `f` returns where `pred` holds, else `None` (and `f` is not called).
pub fn if_some_with<T, F: FnOnce() -> T>(pred: bool, f: F) -> (r: Option<T>)
    requires
        pred ==> f.requires(()),
    ensures
        pred ==> r is Some && f.ensures((), r->Some_0),
        !pred ==> r is None,
{
    if pred {
        Some(f())
    } else {
        None
    }
}

/// `t` and the index after `pat`, where `s` holds `pat` at index `i`.
fn match_prefix<T>(s: &[char], i: usize, pat: &str, t: T) -> (r: Option<(T, usize)>)
    requires
        i <= s@.len(),
    ensures
        has_at(s@, i as int, pat@) ==> (r matches Some(p) && p.0 == t && p.1 == i + pat@.len()),
        !has_at(s@, i as int, pat@) ==> r is None,
{
    proof {
        assert(s@.len() == s.len());
    }
    let matched = has_at_exec(s, i, pat);
    let m = chars_of(pat).len();
    let found = if_some_with(matched, move || -> (x: T)
        ensures
            x == t,
        { t });
    match found {
        Some(x) => Some((x, i + m)),
        None => None,
    }
}

impl GameTermination {
    /// Whether `s` starts with `1`, `0` or `*`.
    pub fn check_start(s: &str) -> (r: bool)
        ensures
            r == (s@.len() > 0 && (s@[0] == '1' || s@[0] == '0' || s@[0] == '*')),
    {
        match first_char(s) {
            Some(c) => c == '1' || c == '0' || c == '*',
            None => false,
        }
    }

    pub fn parse_at(s: &[char], i: usize) -> (r: Result<(GameTermination, usize), PgnError>)
        requires
            i <= s@.len(),
        ensures
            agrees(r, spec_game_termination(s@, i as int)),
            r matches Ok((_, j)) ==> i < j <= s@.len(),
    {
        proof {
            reveal_strlit("1-0");
            reveal_strlit("0-1");
            reveal_strlit("1/2-1/2");
            reveal_strlit("*");
            assert("1-0"@ =~= white_wins_text());
            assert("0-1"@ =~= black_wins_text());
            assert("1/2-1/2"@ =~= tie_text());
            if has_at(s@, i as int, "*"@) {
                assert(s@.subrange(i as int, i + 1)[0] == s@[i as int]);
            }
            if at_is(s@, i as int, '*') {
                assert(s@.subrange(i as int, i + 1) =~= "*"@);
            }
        }
        if let Some(p) = match_prefix(s, i, "1-0", GameTermination::WhiteWins) {
            return Ok(p);
        }
        if let Some(p) = match_prefix(s, i, "0-1", GameTermination::BlackWins) {
            return Ok(p);
        }
        if let Some(p) = match_prefix(s, i, "1/2-1/2", GameTermination::Tie) {
            return Ok(p);
        }
        if let Some(p) = match_prefix(s, i, "*", GameTermination::Unterminated) {
            return Ok(p);
        }
        if i >= s.len() {
            Err(PgnError::UnexpectedEOF("game termination"))
        } else {
            Err(PgnError::UnexpectedInput("game termination", s[i]))
        }
    }

    /// Parses the game-termination marker at the start of `s`; returns it and the rest of `s`.
    pub fn parse(s: &str) -> (r: Result<(GameTermination, &str), PgnError>)
        ensures
            agrees_tail(s@, r, spec_game_termination(s@, 0)),
    {
        let v = chars_of(s);
        match GameTermination::parse_at(v.as_slice(), 0) {
            Ok((t, j)) => Ok((t, rest_of(s, j, v.len()))),
            Err(e) => Err(e),
        }
    }
}

/// A move number indication: a decimal integer, then any number of periods,
/// which may stand after whitespace.
#[derive(Debug, PartialEq, Eq, Structural, Clone, Copy)]
pub struct MoveNumberIndication {
    pub number: i32,
}

/// The first index at or after `i` that does not hold a period.
pub open spec fn dots_end(s: Seq<char>, i: int) -> int
    decreases s.len() - i,
{
    if 0 <= i < s.len() && s[i] == '.' {
        dots_end(s, i + 1)
    } else {
        i
    }
}

/// Where a move number indication whose digits end at index `d` ends: after
/// the periods that follow, with the whitespace before them; at `d` where no
/// period follows.
pub open spec fn move_number_end(s: Seq<char>, d: int) -> int {
    if at_is(s, skip_white(s, d), '.') {
        dots_end(s, skip_white(s, d))
    } else {
        d
    }
}

/// The move number indication at index `i` of `s`, and the index after it.
pub open spec fn spec_move_number(s: Seq<char>, i: int) -> Result<(MoveNumberIndication, int), PgnError> {
    if i >= s.len() {
        Err(PgnError::UnexpectedEOF("move number indication"))
    } else if !is_ascii_digit(s[i]) {
        Err(PgnError::UnexpectedInput("move number indication", s[i]))
    } else {
        match spec_integer(s, i, digits_end(s, i), "move number indication") {
            Ok(v) => Ok(
                (MoveNumberIndication { number: v }, move_number_end(s, digits_end(s, i))),
            ),
            Err(e) => Err(e),
        }
    }
}

/// Skips the periods, and the whitespace before them, that follow the digits
/// of a move number ending at index `d`.
fn scan_move_number_end(s: &[char], d: usize) -> (e: usize)
    requires
        d <= s@.len(),
    ensures
        e == move_number_end(s@, d as int),
        d <= e <= s@.len(),
{
    let w = skip_whitespace(s, d);
    if !char_at_is(s, w, '.') {
        return d;
    }
    let mut e = w;
    while e < s.len() && s[e] == '.'
        invariant
            w <= e <= s@.len(),
            dots_end(s@, e as int) == dots_end(s@, w as int),
        decreases s@.len() - e,
    {
        e = e + 1;
    }
    e
}

impl MoveNumberIndication {
    /// Whether `s` starts with an ASCII digit.
    pub fn check_start(s: &str) -> (r: bool)
        ensures
            r == (s@.len() > 0 && is_ascii_digit(s@[0])),
    {
        match first_char(s) {
            Some(c) => is_ascii_digit_exec(c),
            None => false,
        }
    }

    pub fn parse_at(s: &[char], i: usize) -> (r: Result<(MoveNumberIndication, usize), PgnError>)
        requires
            i <= s@.len(),
        ensures
            agrees(r, spec_move_number(s@, i as int)),
            r matches Ok((_, j)) ==> i < j <= s@.len(),
    {
        if i >= s.len() {
            return Err(PgnError::UnexpectedEOF("move number indication"));
        }
        if !is_ascii_digit_exec(s[i]) {
            return Err(PgnError::UnexpectedInput("move number indication", s[i]));
        }
        let d = scan_digits(s, i);
        proof {
            lemma_digits_end_bounds(s@, i as int);
        }
        let number = match parse_integer(s, i, d, "move number indication") {
            Ok(v) => v,
            Err(e) => return Err(e),
        };
        Ok((MoveNumberIndication { number }, scan_move_number_end(s, d)))
    }

    /// Parses the move number indication at the start of `s`; returns it and the rest of `s`.
    pub fn parse(s: &str) -> (r: Result<(MoveNumberIndication, &str), PgnError>)
        ensures
            agrees_tail(s@, r, spec_move_number(s@, 0)),
    {
        let v = chars_of(s);
        match MoveNumberIndication::parse_at(v.as_slice(), 0) {
            Ok((m, j)) => Ok((m, rest_of(s, j, v.len()))),
            Err(e) => Err(e),
        }
    }
}

/// What follows the leading integer of an element: periods (a move number), a
/// termination suffix, or a `-` and digits that no termination has after it
/// (kept, with those digits, for the caller to reject).
#[derive(Debug, PartialEq, Eq)]
pub enum ElementSuffix {
    MoveNumber,
    Termination(GameTermination),
    BadTermination(String),
}

pub enum ElementSuffixModel {
    MoveNumber,
    Termination(GameTermination),
    BadTermination(Seq<char>),
}

impl View for ElementSuffix {
    type V = ElementSuffixModel;

    open spec fn view(&self) -> ElementSuffixModel {
        match self {
            ElementSuffix::MoveNumber => ElementSuffixModel::MoveNumber,
            ElementSuffix::Termination(t) => ElementSuffixModel::Termination(*t),
            ElementSuffix::BadTermination(d) => ElementSuffixModel::BadTermination(d@),
        }
    }
}

/// The suffix at index `d` of `s` (where the leading integer ends), and the index after it:
/// `/2-1/2` is a tie; `-` and digits of value 0 or 1 end `1-0` or `0-1`; `-` and
/// digits of another value are a rejected termination; anything else is a move
/// number's periods.
pub open spec fn spec_element_suffix(s: Seq<char>, d: int) -> (ElementSuffixModel, int) {
    if has_at(s, d, tie_suffix_text()) {
        (ElementSuffixModel::Termination(GameTermination::Tie), d + 6)
    } else if at_is(s, d, '-') && d + 1 < s.len() && is_ascii_digit(s[d + 1]) {
        let e = digits_end(s, d + 1);
        let n = s.subrange(d + 1, e);
        if decimal_value(n) == 0 {
            (ElementSuffixModel::Termination(GameTermination::WhiteWins), e)
        } else if decimal_value(n) == 1 {
            (ElementSuffixModel::Termination(GameTermination::BlackWins), e)
        } else {
            (ElementSuffixModel::BadTermination(n), e)
        }
    } else {
        (ElementSuffixModel::MoveNumber, move_number_end(s, d))
    }
}

impl ElementSuffix {
    pub fn parse_at(s: &[char], d: usize) -> (r: (ElementSuffix, usize))
        requires
            d <= s@.len(),
        ensures
            (r.0@, r.1 as int) == spec_element_suffix(s@, d as int),
            d <= r.1 <= s@.len(),
    {
        proof {
            assert(s@.len() == s.len());
            reveal_strlit("/2-1/2");
            assert("/2-1/2"@ =~= tie_suffix_text());
        }
        if has_at_exec(s, d, "/2-1/2") {
            return (ElementSuffix::Termination(GameTermination::Tie), d + 6);
        }
        if char_at_is(s, d, '-') && d + 1 < s.len() && is_ascii_digit_exec(s[d + 1]) {
            let e = scan_digits(s, d + 1);
            proof {
                lemma_digits_end_bounds(s@, d + 1);
            }
            if digits_value_is(s, d + 1, e, 0) {
                return (ElementSuffix::Termination(GameTermination::WhiteWins), e);
            }
            if digits_value_is(s, d + 1, e, 1) {
                return (ElementSuffix::Termination(GameTermination::BlackWins), e);
            }
            return (ElementSuffix::BadTermination(string_of(s, d + 1, e)), e);
        }
        (ElementSuffix::MoveNumber, scan_move_number_end(s, d))
    }

    /// Parses the suffix at the start of `s`; returns it and the rest of `s`.
    pub fn parse(s: &str) -> (r: (ElementSuffix, &str))
        ensures
            r.0@ == spec_element_suffix(s@, 0).0,
            r.1@ == s@.subrange(spec_element_suffix(s@, 0).1, s@.len() as int),
    {
        let v = chars_of(s);
        let (x, j) = ElementSuffix::parse_at(v.as_slice(), 0);
        (x, rest_of(s, j, v.len()))
    }
}

/// One movetext element. A game-termination marker is an element too: the
/// movetext section takes it off the end of its sequence.
#[derive(Debug, PartialEq, Eq)]
pub enum ElementP {
    MoveNumber(i32),
    SanMove(String),
    NAG(i32),
    Termination(GameTermination),
}

pub enum ElementModel {
    MoveNumber(i32),
    SanMove(Seq<char>),
    NAG(i32),
    Termination(GameTermination),
}

impl View for ElementP {
    type V = ElementModel;

    open spec fn view(&self) -> ElementModel {
        match self {
            ElementP::MoveNumber(n) => ElementModel::MoveNumber(*n),
            ElementP::SanMove(t) => ElementModel::SanMove(t@),
            ElementP::NAG(n) => ElementModel::NAG(*n),
            ElementP::Termination(t) => ElementModel::Termination(*t),
        }
    }
}

/// Whether the termination `t`, read after the leading digits `lead`, is one:
/// `1-0` and `0-1` need the number the other side does not have.
pub open spec fn termination_confirmed(lead: Seq<char>, t: GameTermination) -> bool {
    match t {
        GameTermination::WhiteWins => decimal_value(lead) == 1,
        GameTermination::BlackWins => decimal_value(lead) == 0,
        _ => true,
    }
}

/// The symbol at index `i` of `s`, as a SAN move element.
pub open spec fn spec_symbol_element(s: Seq<char>, i: int) -> Result<(ElementModel, int), PgnError> {
    match spec_symbol(s, i) {
        Ok((t, e)) => Ok((ElementModel::SanMove(t), e)),
        Err(x) => Err(x),
    }
}

/// The element at index `i` of `s`, and the index after it. One that starts with
/// a digit is read as an integer and then told apart by what follows it; a
/// termination that fails that check is read as a symbol instead.
pub open spec fn spec_element_p(s: Seq<char>, i: int) -> Result<(ElementModel, int), PgnError> {
    if i >= s.len() {
        Err(PgnError::UnexpectedEOF("element"))
    } else if is_ascii_digit(s[i]) {
        let d = digits_end(s, i);
        match spec_element_suffix(s, d) {
            (ElementSuffixModel::Termination(t), e) => if termination_confirmed(
                s.subrange(i, d),
                t,
            ) {
                Ok((ElementModel::Termination(t), e))
            } else {
                spec_symbol_element(s, i)
            },
            (ElementSuffixModel::MoveNumber, _) => match spec_move_number(s, i) {
                Ok((m, e)) => Ok((ElementModel::MoveNumber(m.number), e)),
                Err(x) => Err(x),
            },
            (ElementSuffixModel::BadTermination(_), _) => spec_symbol_element(s, i),
        }
    } else if s[i] == '*' {
        Ok((ElementModel::Termination(GameTermination::Unterminated), i + 1))
    } else if is_ascii_alphanumeric(s[i]) {
        spec_symbol_element(s, i)
    } else if s[i] == '$' {
        match spec_nag(s, i) {
            Ok((g, e)) => Ok((ElementModel::NAG(g.value), e)),
            Err(x) => Err(x),
        }
    } else {
        Err(PgnError::UnexpectedInput("element", s[i]))
    }
}

/// Of the texts `a-b` with single digits `a` and `b`, `1-0` and `0-1` are game
/// terminations, and every other is read whole as a SAN move symbol.
pub proof fn lemma_digit_dash_digit(a: char, b: char)
    requires
        is_ascii_digit(a),
        is_ascii_digit(b),
    ensures
        spec_element_p(seq![a, '-', b], 0) == (if a == '1' && b == '0' {
            Ok::<(ElementModel, int), PgnError>(
                (ElementModel::Termination(GameTermination::WhiteWins), 3),
            )
        } else if a == '0' && b == '1' {
            Ok((ElementModel::Termination(GameTermination::BlackWins), 3))
        } else {
            Ok((ElementModel::SanMove(seq![a, '-', b]), 3))
        }),
{
    let s = seq![a, '-', b];
    assert(s[0] == a && s[1] == '-' && s[2] == b && s.len() == 3);
    assert(digits_end(s, 1) == 1);
    assert(digits_end(s, 0) == 1);
    assert(digits_end(s, 3) == 3);
    assert(digits_end(s, 2) == 3);
    assert(!has_at(s, 1, tie_suffix_text()));
    assert(s.subrange(2, 3) =~= seq![b]);
    assert(s.subrange(0, 1) =~= seq![a]);
    assert(seq![b].drop_last() =~= Seq::<char>::empty());
    assert(seq![a].drop_last() =~= Seq::<char>::empty());
    assert(decimal_value(Seq::<char>::empty()) == 0);
    assert(seq![b].last() == b && seq![a].last() == a);
    assert(decimal_value(seq![b]) == digit_value(b));
    assert(decimal_value(seq![a]) == digit_value(a));
    assert(crate::symbol::symbol_end(s, 3) == 3);
    assert(crate::symbol::symbol_end(s, 2) == 3);
    assert(crate::symbol::symbol_end(s, 1) == 3);
    assert(crate::symbol::symbol_end(s, 0) == 3);
    assert(s.subrange(0, 3) =~= s);
}

/// Whether the digits of `s` from `i` up to `d` denote the number `target`.
fn digits_value_is(s: &[char], i: usize, d: usize, target: i32) -> (b: bool)
    requires
        i <= d <= s@.len(),
        forall|m: int| i <= m < d ==> is_ascii_digit(#[trigger] s@[m]),
        0 <= target,
    ensures
        b == (decimal_value(s@.subrange(i as int, d as int)) == target),
{
    proof {
        lemma_decimal_value_grows(s@, i as int, d as int, d as int);
    }
    match parse_integer(s, i, d, "game termination") {
        Ok(v) => v == target,
        Err(_) => false,
    }
}

/// Whether the termination `t`, read after the digits of `s` from `i` up to `d`, is one.
fn validate(s: &[char], i: usize, d: usize, t: GameTermination) -> (r: bool)
    requires
        i < d <= s@.len(),
        forall|m: int| i <= m < d ==> is_ascii_digit(#[trigger] s@[m]),
    ensures
        r == termination_confirmed(s@.subrange(i as int, d as int), t),
{
    match t {
        GameTermination::WhiteWins => digits_value_is(s, i, d, 1),
        GameTermination::BlackWins => digits_value_is(s, i, d, 0),
        _ => true,
    }
}

impl ElementP {
    fn parse_symbol_at(s: &[char], i: usize) -> (r: Result<(ElementP, usize), PgnError>)
        requires
            i <= s@.len(),
        ensures
            agrees_view(r, spec_symbol_element(s@, i as int)),
            r matches Ok((_, j)) ==> i < j <= s@.len(),
    {
        match Symbol::parse_at(s, i) {
            Ok((sym, e)) => Ok((ElementP::SanMove(sym.0), e)),
            Err(x) => Err(x),
        }
    }

    pub fn parse_at(s: &[char], i: usize) -> (r: Result<(ElementP, usize), PgnError>)
        requires
            i <= s@.len(),
        ensures
            agrees_view(r, spec_element_p(s@, i as int)),
            r matches Ok((_, j)) ==> i < j <= s@.len(),
    {
        if i >= s.len() {
            return Err(PgnError::UnexpectedEOF("element"));
        }
        let c = s[i];
        if is_ascii_digit_exec(c) {
            let d = scan_digits(s, i);
            proof {
                lemma_digits_end_bounds(s@, i as int);
            }
            let (suffix, e) = ElementSuffix::parse_at(s, d);
            match suffix {
                ElementSuffix::Termination(t) => {
                    if validate(s, i, d, t) {
                        Ok((ElementP::Termination(t), e))
                    } else {
                        ElementP::parse_symbol_at(s, i)
                    }
                },
                ElementSuffix::MoveNumber => match MoveNumberIndication::parse_at(s, i) {
                    Ok((m, e)) => Ok((ElementP::MoveNumber(m.number), e)),
                    Err(x) => Err(x),
                },
                ElementSuffix::BadTermination(_) => ElementP::parse_symbol_at(s, i),
            }
        } else if c == '*' {
            Ok((ElementP::Termination(GameTermination::Unterminated), i + 1))
        } else if is_ascii_alphanumeric_exec(c) {
            ElementP::parse_symbol_at(s, i)
        } else if c == '$' {
            match NumericAnnotationGlyph::parse_at(s, i) {
                Ok((g, e)) => Ok((ElementP::NAG(g.value), e)),
                Err(x) => Err(x),
            }
        } else {
            Err(PgnError::UnexpectedInput("element", c))
        }
    }

    /// Parses the element at the start of `s`; returns it and the rest of `s`.
    pub fn parse(s: &str) -> (r: Result<(ElementP, &str), PgnError>)
        ensures
            agrees_view_tail(s@, r, spec_element_p(s@, 0)),
    {
        let v = chars_of(s);
        match ElementP::parse_at(v.as_slice(), 0) {
            Ok((x, j)) => Ok((x, rest_of(s, j, v.len()))),
            Err(e) => Err(e),
        }
    }
}

/// A movetext element read with its full grammar: a move number indication, a
/// SAN move, or a numeric annotation glyph.
#[derive(Debug, PartialEq, Eq, Structural, Clone, Copy)]
pub enum Element {
    MoveNumber(MoveNumberIndication),
    Move(SanMove),
    Annotation(NumericAnnotationGlyph),
}

/// Whether `c` can start a SAN move.
pub open spec fn starts_san_move(c: char) -> bool {
    is_piece_char(c) || is_file_char(c) || is_rank_char(c) || c == 'x' || c == 'O'
}

/// The element at index `i` of `s`, and the index after it: a digit starts a move
/// number, a SAN move start character a SAN move, and `$` a glyph.
pub open spec fn spec_element(s: Seq<char>, i: int) -> Result<(Element, int), PgnError> {
    if i >= s.len() {
        Err(PgnError::UnexpectedEOF("element"))
    } else if is_ascii_digit(s[i]) {
        match spec_move_number(s, i) {
            Ok((m, e)) => Ok((Element::MoveNumber(m), e)),
            Err(x) => Err(x),
        }
    } else if starts_san_move(s[i]) {
        match spec_san_move(s, i) {
            Ok((m, e)) => Ok((Element::Move(m), e)),
            Err(x) => Err(x),
        }
    } else if s[i] == '$' {
        match spec_nag(s, i) {
            Ok((g, e)) => Ok((Element::Annotation(g), e)),
            Err(x) => Err(x),
        }
    } else {
        Err(PgnError::UnexpectedInput("element", s[i]))
    }
}

impl Element {
    /// Whether `s` starts with a digit, a SAN move start character or `$`.
    pub fn check_start(s: &str) -> (r: bool)
        ensures
            r == (s@.len() > 0 && (is_ascii_digit(s@[0]) || starts_san_move(s@[0]) || s@[0]
                == '$')),
    {
        MoveNumberIndication::check_start(s) || SanMove::check_start(s)
            || NumericAnnotationGlyph::check_start(s)
    }

    pub fn parse_at(s: &[char], i: usize) -> (r: Result<(Element, usize), PgnError>)
        requires
            i <= s@.len(),
        ensures
            agrees(r, spec_element(s@, i as int)),
            r matches Ok((_, j)) ==> i < j <= s@.len(),
    {
        if i >= s.len() {
            return Err(PgnError::UnexpectedEOF("element"));
        }
        let c = s[i];
        if is_ascii_digit_exec(c) {
            match MoveNumberIndication::parse_at(s, i) {
                Ok((m, e)) => Ok((Element::MoveNumber(m), e)),
                Err(x) => Err(x),
            }
        } else if crate::san_move::piece::Piece::from_char(c).is_some() || ('a' <= c && c <= 'h')
            || ('1' <= c && c <= '8') || c == 'x' || c == 'O' {
            match SanMove::parse_at(s, i) {
                Ok((m, e)) => Ok((Element::Move(m), e)),
                Err(x) => Err(x),
            }
        } else if c == '$' {
            match NumericAnnotationGlyph::parse_at(s, i) {
                Ok((g, e)) => Ok((Element::Annotation(g), e)),
                Err(x) => Err(x),
            }
        } else {
            Err(PgnError::UnexpectedInput("element", c))
        }
    }

    /// Parses the element at the start of `s`; returns it and the rest of `s`.
    pub fn parse(s: &str) -> (r: Result<(Element, &str), PgnError>)
        ensures
            agrees_tail(s@, r, spec_element(s@, 0)),
    {
        let v = chars_of(s);
        match Element::parse_at(v.as_slice(), 0) {
            Ok((x, j)) => Ok((x, rest_of(s, j, v.len()))),
            Err(e) => Err(e),
        }
    }
}

} // verus!
