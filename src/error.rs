use vstd::prelude::*;

verus! {

/// Why a piece of PGN text could not be parsed. The `&'static str` names the
/// grammar construct that was being parsed.
#[derive(Debug, PartialEq, Eq)]
pub enum PgnError {
    /// A run of digits does not fit the integer type it is read into.
    ParseIntError(&'static str),
    /// The input ended where more was required.
    UnexpectedEOF(&'static str),
    /// A required literal or character class was not found; holds the character found.
    UnexpectedInput(&'static str, char),
    /// A quoted string holds more than 255 characters.
    StringTooLong(&'static str),
    /// A quoted string holds a non-printable character or an escape other than
    /// `\"` and `\\`; holds the offending character.
    InvalidStringChar(&'static str, char),
    /// A tentative parse was rejected by the character that follows it; a
    /// grammar node that tries one reads the text another way instead.
    UnmatchedFollowSet(&'static str),
    /// Variations nest more deeply than the parser reads.
    VariationTooDeep,
    /// A game with neither tag pairs nor movetext elements.
    EmptyGame,
}

/// An executable parse result `r` is the one that the mathematical parse `m` describes:
/// the same value and end position, or the same error.
pub open spec fn agrees<T>(r: Result<(T, usize), PgnError>, m: Result<(T, int), PgnError>) -> bool {
    match r {
        Ok((v, j)) => m == Ok::<(T, int), PgnError>((v, j as int)),
        Err(e) => m == Err::<(T, int), PgnError>(e),
    }
}

/// Like `agrees`, for a parse of a whole `&str` whose result carries the unparsed tail.
pub open spec fn agrees_tail<'a, T>(
    s: Seq<char>,
    r: Result<(T, &'a str), PgnError>,
    m: Result<(T, int), PgnError>,
) -> bool {
    match r {
        Ok((v, t)) => m is Ok && m->Ok_0.0 == v && 0 <= m->Ok_0.1 <= s.len() && t@ == s.subrange(
            m->Ok_0.1,
            s.len() as int,
        ),
        Err(e) => m == Err::<(T, int), PgnError>(e),
    }
}

/// Like `agrees`, where the mathematical parse describes the value by its view.
pub open spec fn agrees_view<T: View>(r: Result<(T, usize), PgnError>, m: Result<(T::V, int), PgnError>) -> bool {
    match r {
        Ok((v, j)) => m == Ok::<(T::V, int), PgnError>((v@, j as int)),
        Err(e) => m == Err::<(T::V, int), PgnError>(e),
    }
}

/// Like `agrees_tail`, where the mathematical parse describes the value by its view.
pub open spec fn agrees_view_tail<'a, T: View>(
    s: Seq<char>,
    r: Result<(T, &'a str), PgnError>,
    m: Result<(T::V, int), PgnError>,
) -> bool {
    match r {
        Ok((v, t)) => m is Ok && m->Ok_0.0 == v@ && 0 <= m->Ok_0.1 <= s.len() && t@
            == s.subrange(m->Ok_0.1, s.len() as int),
        Err(e) => m == Err::<(T::V, int), PgnError>(e),
    }
}

} // verus!
