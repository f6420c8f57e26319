use vstd::prelude::*;

use crate::error::{agrees, agrees_tail, PgnError};
use crate::text::{chars_of, first_char, rest_of};

verus! {

/// A kind of chess piece.
#[derive(Debug, PartialEq, Eq, Structural, Clone, Copy)]
pub enum Piece {
    King,
    Queen,
    Rook,
    Knight,
    Bishop,
    Pawn,
}

/// A promotion suffix: `=` and the piece promoted to.
#[derive(Debug, PartialEq, Eq, Structural, Clone, Copy)]
pub struct Promotion(pub Piece);

pub open spec fn is_piece_char(c: char) -> bool {
    c == 'P' || c == 'N' || c == 'B' || c == 'R' || c == 'Q' || c == 'K'
}

/// The piece that a letter `P N B R Q K` names.
pub open spec fn piece_of(c: char) -> Piece {
    if c == 'P' {
        Piece::Pawn
    } else if c == 'N' {
        Piece::Knight
    } else if c == 'B' {
        Piece::Bishop
    } else if c == 'R' {
        Piece::Rook
    } else if c == 'Q' {
        Piece::Queen
    } else {
        Piece::King
    }
}

/// The piece letter at index `i` of `s`, and the index after it.
pub open spec fn spec_piece(s: Seq<char>, i: int) -> Result<(Piece, int), PgnError> {
    if i >= s.len() {
        Err(PgnError::UnexpectedEOF("piece"))
    } else if !is_piece_char(s[i]) {
        Err(PgnError::UnexpectedInput("piece", s[i]))
    } else {
        Ok((piece_of(s[i]), i + 1))
    }
}

/// The promotion at index `i` of `s`: `=` then a piece letter.
pub open spec fn spec_promotion(s: Seq<char>, i: int) -> Result<(Promotion, int), PgnError> {
    if i >= s.len() {
        Err(PgnError::UnexpectedEOF("promotion"))
    } else if s[i] != '=' {
        Err(PgnError::UnexpectedInput("promotion", s[i]))
    } else if i + 1 >= s.len() {
        Err(PgnError::UnexpectedEOF("promotion"))
    } else if !is_piece_char(s[i + 1]) {
        Err(PgnError::UnexpectedInput("promotion", s[i + 1]))
    } else {
        Ok((Promotion(piece_of(s[i + 1])), i + 2))
    }
}

impl Piece {
    /// The piece that `c` names, if it is one of `P N B R Q K`.
    pub fn from_char(c: char) -> (r: Option<Piece>)
        ensures
            r == (if is_piece_char(c) {
                Some(piece_of(c))
            } else {
                None::<Piece>
            }),
    {
        if c == 'P' {
            Some(Piece::Pawn)
        } else if c == 'N' {
            Some(Piece::Knight)
        } else if c == 'B' {
            Some(Piece::Bishop)
        } else if c == 'R' {
            Some(Piece::Rook)
        } else if c == 'Q' {
            Some(Piece::Queen)
        } else if c == 'K' {
            Some(Piece::King)
        } else {
            None
        }
    }

    /// Whether `s` starts with one of `P N B R Q K`.
    pub fn check_start(s: &str) -> (r: bool)
        ensures
            r == (s@.len() > 0 && is_piece_char(s@[0])),
    {
        match first_char(s) {
            Some(c) => Piece::from_char(c).is_some(),
            None => false,
        }
    }

    pub fn parse_at(s: &[char], i: usize) -> (r: Result<(Piece, usize), PgnError>)
        requires
            i <= s@.len(),
        ensures
            agrees(r, spec_piece(s@, i as int)),
            r matches Ok((_, j)) ==> j == i + 1 && j <= s@.len(),
    {
        if i >= s.len() {
            return Err(PgnError::UnexpectedEOF("piece"));
        }
        match Piece::from_char(s[i]) {
            Some(p) => Ok((p, i + 1)),
            None => Err(PgnError::UnexpectedInput("piece", s[i])),
        }
    }

    /// Parses the piece letter at the start of `s`; returns it and the rest of `s`.
    pub fn parse(s: &str) -> (r: Result<(Piece, &str), PgnError>)
        ensures
            agrees_tail(s@, r, spec_piece(s@, 0)),
    {
        let v = chars_of(s);
        match Piece::parse_at(v.as_slice(), 0) {
            Ok((p, j)) => Ok((p, rest_of(s, j, v.len()))),
            Err(e) => Err(e),
        }
    }
}

impl Promotion {
    /// Whether `s` starts with `=`.
    pub fn check_start(s: &str) -> (r: bool)
        ensures
            r == (s@.len() > 0 && s@[0] == '='),
    {
        match first_char(s) {
            Some(c) => c == '=',
            None => false,
        }
    }

    pub fn parse_at(s: &[char], i: usize) -> (r: Result<(Promotion, usize), PgnError>)
        requires
            i <= s@.len(),
        ensures
            agrees(r, spec_promotion(s@, i as int)),
            r matches Ok((_, j)) ==> j == i + 2 && j <= s@.len(),
    {
        if i >= s.len() {
            return Err(PgnError::UnexpectedEOF("promotion"));
        }
        if s[i] != '=' {
            return Err(PgnError::UnexpectedInput("promotion", s[i]));
        }
        if i + 1 >= s.len() {
            return Err(PgnError::UnexpectedEOF("promotion"));
        }
        match Piece::from_char(s[i + 1]) {
            Some(p) => Ok((Promotion(p), i + 2)),
            None => Err(PgnError::UnexpectedInput("promotion", s[i + 1])),
        }
    }

    /// Parses the promotion at the start of `s`; returns it and the rest of `s`.
    pub fn parse(s: &str) -> (r: Result<(Promotion, &str), PgnError>)
        ensures
            agrees_tail(s@, r, spec_promotion(s@, 0)),
    {
        let v = chars_of(s);
        match Promotion::parse_at(v.as_slice(), 0) {
            Ok((p, j)) => Ok((p, rest_of(s, j, v.len()))),
            Err(e) => Err(e),
        }
    }
}

} // verus!
