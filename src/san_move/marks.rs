use vstd::prelude::*;

use crate::error::{agrees, agrees_tail, PgnError};
use crate::text::{chars_of, first_char, rest_of};

verus! {

/// The check suffix of a move: `+`, `#`, or nothing.
#[derive(Debug, PartialEq, Eq, Structural, Clone, Copy)]
pub enum Check {
    Check,
    Mate,
    NoCheck,
}

/// The capture marker `x`.
#[derive(Debug, PartialEq, Eq, Structural, Clone, Copy)]
pub struct Capture;

/// The check mark at index `i` of `s`, and the index after it.
pub open spec fn spec_check(s: Seq<char>, i: int) -> Result<(Check, int), PgnError> {
    if i >= s.len() {
        Err(PgnError::UnexpectedEOF("check"))
    } else if s[i] == '+' {
        Ok((Check::Check, i + 1))
    } else if s[i] == '#' {
        Ok((Check::Mate, i + 1))
    } else {
        Err(PgnError::UnexpectedInput("check", s[i]))
    }
}

/// The optional check suffix at index `i` of `s`: `Check::NoCheck`, consuming
/// nothing, where no `+` or `#` stands there.
pub open spec fn check_suffix(s: Seq<char>, i: int) -> (Check, int) {
    match spec_check(s, i) {
        Ok(p) => p,
        Err(_) => (Check::NoCheck, i),
    }
}

/// The capture marker at index `i` of `s`, and the index after it.
pub open spec fn spec_capture(s: Seq<char>, i: int) -> Result<(Capture, int), PgnError> {
    if i >= s.len() {
        Err(PgnError::UnexpectedEOF("capture"))
    } else if s[i] == 'x' {
        Ok((Capture, i + 1))
    } else {
        Err(PgnError::UnexpectedInput("capture", s[i]))
    }
}

impl Check {
    /// Whether `s` starts with `+` or `#`.
    pub fn check_start(s: &str) -> (r: bool)
        ensures
            r == (s@.len() > 0 && (s@[0] == '+' || s@[0] == '#')),
    {
        match first_char(s) {
            Some(c) => c == '+' || c == '#',
            None => false,
        }
    }

    pub fn parse_at(s: &[char], i: usize) -> (r: Result<(Check, usize), PgnError>)
        requires
            i <= s@.len(),
        ensures
            agrees(r, spec_check(s@, i as int)),
            r matches Ok((_, j)) ==> j == i + 1 && j <= s@.len(),
    {
        if i >= s.len() {
            Err(PgnError::UnexpectedEOF("check"))
        } else if s[i] == '+' {
            Ok((Check::Check, i + 1))
        } else if s[i] == '#' {
            Ok((Check::Mate, i + 1))
        } else {
            Err(PgnError::UnexpectedInput("check", s[i]))
        }
    }

    /// Reads the optional check suffix at index `i` of `s`.
    pub fn parse_suffix_at(s: &[char], i: usize) -> (r: (Check, usize))
        requires
            i <= s@.len(),
        ensures
            (r.0, r.1 as int) == check_suffix(s@, i as int),
            i <= r.1 <= s@.len(),
    {
        match Check::parse_at(s, i) {
            Ok(p) => p,
            Err(_) => (Check::NoCheck, i),
        }
    }

    /// Parses the check mark at the start of `s`; returns it and the rest of `s`.
    pub fn parse(s: &str) -> (r: Result<(Check, &str), PgnError>)
        ensures
            agrees_tail(s@, r, spec_check(s@, 0)),
    {
        let v = chars_of(s);
        match Check::parse_at(v.as_slice(), 0) {
            Ok((c, j)) => Ok((c, rest_of(s, j, v.len()))),
            Err(e) => Err(e),
        }
    }
}

impl Capture {
    /// Whether `s` starts with `x`.
    pub fn check_start(s: &str) -> (r: bool)
        ensures
            r == (s@.len() > 0 && s@[0] == 'x'),
    {
        match first_char(s) {
            Some(c) => c == 'x',
            None => false,
        }
    }

    pub fn parse_at(s: &[char], i: usize) -> (r: Result<(Capture, usize), PgnError>)
        requires
            i <= s@.len(),
        ensures
            agrees(r, spec_capture(s@, i as int)),
            r matches Ok((_, j)) ==> j == i + 1 && j <= s@.len(),
    {
        if i >= s.len() {
            Err(PgnError::UnexpectedEOF("capture"))
        } else if s[i] == 'x' {
            Ok((Capture, i + 1))
        } else {
            Err(PgnError::UnexpectedInput("capture", s[i]))
        }
    }

    /// Parses the capture marker at the start of `s`; returns it and the rest of `s`.
    pub fn parse(s: &str) -> (r: Result<(Capture, &str), PgnError>)
        ensures
            agrees_tail(s@, r, spec_capture(s@, 0)),
    {
        let v = chars_of(s);
        match Capture::parse_at(v.as_slice(), 0) {
            Ok((c, j)) => Ok((c, rest_of(s, j, v.len()))),
            Err(e) => Err(e),
        }
    }
}

} // verus!
