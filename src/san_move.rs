use vstd::prelude::*;

pub mod board;
pub mod disambiguation;
pub mod marks;
pub mod piece;

pub use board::{File, Rank, Square};
pub use disambiguation::Disambiguation;
pub use marks::{Capture, Check};
pub use piece::{Piece, Promotion};

use crate::error::{agrees, agrees_tail, PgnError};
use crate::text::{at_is, char_at_is, chars_of, first_char, has_at, has_at_exec, rest_of};
use board::{is_file_char, is_rank_char, spec_square, starts_square};
use disambiguation::{
    disambiguation_file, disambiguation_rank, spec_disambiguation, starts_disambiguation,
};
use marks::check_suffix;
use piece::{is_piece_char, piece_of, spec_promotion};

verus! {

/// A piece letter, if any, and what the move names of the square it comes from.
#[derive(Debug, PartialEq, Eq, Structural, Clone, Copy)]
pub struct PieceSpec {
    pub piece: Piece,
    pub disambiguation: Disambiguation,
}

/// One move in Standard Algebraic Notation.
#[derive(Debug, PartialEq, Eq, Structural, Clone, Copy)]
pub struct SanMove {
    pub move_type: SanMoveType,
    pub check: Check,
}

#[derive(Debug, PartialEq, Eq, Structural, Clone, Copy)]
pub enum SanMoveType {
    Move(SanMoveDetail),
    LongCastle,
    ShortCastle,
}

/// An ordinary (not castling) move.
#[derive(Debug, PartialEq, Eq, Structural, Clone, Copy)]
pub struct SanMoveDetail {
    pub piece: Piece,
    pub destination: Square,
    pub from_file: Option<File>,
    pub from_rank: Option<Rank>,
    pub capture: bool,
    pub promote: Option<Piece>,
}

pub open spec fn long_castle_text() -> Seq<char> {
    seq!['O', '-', 'O', '-', 'O']
}

pub open spec fn short_castle_text() -> Seq<char> {
    seq!['O', '-', 'O']
}

/// The piece spec at index `i` of `s`: a piece letter (a pawn where there is
/// none), then a disambiguation where one is accepted. Never fails.
pub open spec fn spec_piecespec(s: Seq<char>, i: int) -> (PieceSpec, int) {
    let (piece, j) = if 0 <= i < s.len() && is_piece_char(s[i]) {
        (piece_of(s[i]), i + 1)
    } else {
        (Piece::Pawn, i)
    };
    if starts_disambiguation(s, j) && spec_disambiguation(s, j) is Ok {
        (
            PieceSpec { piece, disambiguation: spec_disambiguation(s, j)->Ok_0.0 },
            spec_disambiguation(s, j)->Ok_0.1,
        )
    } else {
        (PieceSpec { piece, disambiguation: Disambiguation::Absent }, j)
    }
}

/// The castling move at index `i` of `s`, with its optional check suffix.
/// `O-O-O` is tried before `O-O`, which is a prefix of it.
pub open spec fn spec_castle(s: Seq<char>, i: int) -> Result<(SanMoveType, Check, int), PgnError> {
    if has_at(s, i, long_castle_text()) {
        let (c, k) = check_suffix(s, i + 5);
        Ok((SanMoveType::LongCastle, c, k))
    } else if has_at(s, i, short_castle_text()) {
        let (c, k) = check_suffix(s, i + 3);
        Ok((SanMoveType::ShortCastle, c, k))
    } else if i >= s.len() {
        Err(PgnError::UnexpectedEOF("castle"))
    } else {
        Err(PgnError::UnexpectedInput("castle", s[i]))
    }
}

/// The ordinary move at index `i` of `s`:
/// piece spec, optional `x`, destination square, optional promotion, optional check.
pub open spec fn spec_ordinary_move(s: Seq<char>, i: int) -> Result<(SanMove, int), PgnError> {
    let (ps, j) = spec_piecespec(s, i);
    let (capture, k) = if at_is(s, j, 'x') {
        (true, j + 1)
    } else {
        (false, j)
    };
    if !starts_square(s, k) {
        if k >= s.len() {
            Err(PgnError::UnexpectedEOF("destination square"))
        } else {
            Err(PgnError::UnexpectedInput("destination square", s[k]))
        }
    } else {
        match spec_square(s, k) {
            Err(e) => Err(e),
            Ok((destination, m)) => {
                let promotion = if at_is(s, m, '=') {
                    match spec_promotion(s, m) {
                        Ok((p, n)) => Ok((Some(p.0), n)),
                        Err(e) => Err(e),
                    }
                } else {
                    Ok((None, m))
                };
                match promotion {
                    Err(e) => Err(e),
                    Ok((promote, n)) => {
                        let (check, end) = check_suffix(s, n);
                        Ok(
                            (
                                SanMove {
                                    move_type: SanMoveType::Move(
                                        SanMoveDetail {
                                            piece: ps.piece,
                                            destination,
                                            from_file: disambiguation_file(ps.disambiguation),
                                            from_rank: disambiguation_rank(ps.disambiguation),
                                            capture,
                                            promote,
                                        },
                                    ),
                                    check,
                                },
                                end,
                            ),
                        )
                    },
                }
            },
        }
    }
}

/// The SAN move at index `i` of `s`, and the index after it: a castling move
/// where one stands there, else an ordinary move.
pub open spec fn spec_san_move(s: Seq<char>, i: int) -> Result<(SanMove, int), PgnError> {
    match spec_castle(s, i) {
        Ok((move_type, check, k)) => Ok((SanMove { move_type, check }, k)),
        Err(_) => spec_ordinary_move(s, i),
    }
}

/// A destination square alone is a pawn move to that square, with no capture,
/// no disambiguation, no promotion and no check suffix.
pub proof fn lemma_square_alone_is_pawn_move(f: char, r: char)
    requires
        is_file_char(f),
        is_rank_char(r),
    ensures
        spec_san_move(seq![f, r], 0) == Ok::<(SanMove, int), PgnError>(
            (
                SanMove {
                    move_type: SanMoveType::Move(
                        SanMoveDetail {
                            piece: Piece::Pawn,
                            destination: Square { rank: board::rank_of(r), file: board::file_of(f) },
                            from_file: None,
                            from_rank: None,
                            capture: false,
                            promote: None,
                        },
                    ),
                    check: Check::NoCheck,
                },
                2,
            ),
        ),
{
    let s = seq![f, r];
    assert(s[0] == f && s[1] == r && s.len() == 2);
    assert(!has_at(s, 0, long_castle_text()));
    assert(!has_at(s, 0, short_castle_text()));
    assert(spec_disambiguation(s, 0) is Err);
}

/// Text that starts with `O-O-O` is a long castle, never a short castle
/// followed by `-O`.
pub proof fn lemma_long_castle_first(s: Seq<char>)
    requires
        has_at(s, 0, long_castle_text()),
    ensures
        spec_san_move(s, 0) is Ok,
        spec_san_move(s, 0)->Ok_0.0.move_type == SanMoveType::LongCastle,
        spec_san_move(s, 0)->Ok_0.1 >= 5,
{
}

impl PieceSpec {
    /// The piece spec of a move that names no piece: a pawn, with no disambiguation.
    pub fn pawn() -> (r: PieceSpec)
        ensures
            r == (PieceSpec { piece: Piece::Pawn, disambiguation: Disambiguation::Absent }),
    {
        PieceSpec { piece: Piece::Pawn, disambiguation: Disambiguation::Absent }
    }

    /// Whether `s` starts with a piece letter, a file letter or a rank digit.
    pub fn check_start(s: &str) -> (r: bool)
        ensures
            r == (s@.len() > 0 && (is_piece_char(s@[0]) || starts_disambiguation(s@, 0))),
    {
        Piece::check_start(s) || Disambiguation::check_start(s)
    }

    pub fn parse_at(s: &[char], i: usize) -> (r: (PieceSpec, usize))
        requires
            i <= s@.len(),
        ensures
            (r.0, r.1 as int) == spec_piecespec(s@, i as int),
            i <= r.1 <= s@.len(),
    {
        let (piece, j) = match Piece::parse_at(s, i) {
            Ok(p) => p,
            Err(_) => (Piece::Pawn, i),
        };
        if j < s.len() && (('a' <= s[j] && s[j] <= 'h') || ('1' <= s[j] && s[j] <= '8')) {
            if let Ok((disambiguation, k)) = Disambiguation::parse_at(s, j) {
                return (PieceSpec { piece, disambiguation }, k);
            }
        }
        (PieceSpec { piece, disambiguation: Disambiguation::Absent }, j)
    }

    /// Parses the piece spec at the start of `s`; returns it and the rest of `s`.
    pub fn parse(s: &str) -> (r: (PieceSpec, &str))
        ensures
            r.0 == spec_piecespec(s@, 0).0,
            r.1@ == s@.subrange(spec_piecespec(s@, 0).1, s@.len() as int),
    {
        let v = chars_of(s);
        let (p, j) = PieceSpec::parse_at(v.as_slice(), 0);
        (p, rest_of(s, j, v.len()))
    }
}

impl SanMove {
    /// Parses the castling move at index `i` of `s`.
    pub fn parse_castle(s: &[char], i: usize) -> (r: Result<(SanMoveType, Check, usize), PgnError>)
        requires
            i <= s@.len(),
        ensures
            match r {
                Ok((t, c, k)) => spec_castle(s@, i as int) == Ok::<
                    (SanMoveType, Check, int),
                    PgnError,
                >((t, c, k as int)) && i < k <= s@.len(),
                Err(e) => spec_castle(s@, i as int) == Err::<(SanMoveType, Check, int), PgnError>(
                    e,
                ),
            },
    {
        proof {
            assert(s@.len() == s.len());
            reveal_strlit("O-O-O");
            reveal_strlit("O-O");
            assert("O-O-O"@ =~= long_castle_text());
            assert("O-O"@ =~= short_castle_text());
        }
        // The long form first: the short form is a prefix of it.
        if has_at_exec(s, i, "O-O-O") {
            let (check, k) = Check::parse_suffix_at(s, i + 5);
            Ok((SanMoveType::LongCastle, check, k))
        } else if has_at_exec(s, i, "O-O") {
            let (check, k) = Check::parse_suffix_at(s, i + 3);
            Ok((SanMoveType::ShortCastle, check, k))
        } else if i >= s.len() {
            Err(PgnError::UnexpectedEOF("castle"))
        } else {
            Err(PgnError::UnexpectedInput("castle", s[i]))
        }
    }

    /// Whether `s` starts with a character that can start a SAN move.
    pub fn check_start(s: &str) -> (r: bool)
        ensures
            r == (s@.len() > 0 && (is_piece_char(s@[0]) || starts_disambiguation(s@, 0) || s@[0]
                == 'x' || s@[0] == 'O')),
    {
        PieceSpec::check_start(s) || Capture::check_start(s) || Square::check_start(s) || match first_char(s) {
            Some(c) => c == 'O',
            None => false,
        }
    }

    fn parse_ordinary_at(s: &[char], i: usize) -> (r: Result<(SanMove, usize), PgnError>)
        requires
            i <= s@.len(),
        ensures
            agrees(r, spec_ordinary_move(s@, i as int)),
            r matches Ok((_, j)) ==> i < j <= s@.len(),
    {
        proof {
            assert(s@.len() == s.len());
        }
        let (piecespec, j) = PieceSpec::parse_at(s, i);
        let (capture, k) = if char_at_is(s, j, 'x') {
            (true, j + 1)
        } else {
            (false, j)
        };
        if !(k < s.len() && 'a' <= s[k] && s[k] <= 'h') {
            if k >= s.len() {
                return Err(PgnError::UnexpectedEOF("destination square"));
            } else {
                return Err(PgnError::UnexpectedInput("destination square", s[k]));
            }
        }
        let (destination, m) = match Square::parse_at(s, k) {
            Ok(p) => p,
            Err(e) => return Err(e),
        };
        let (promote, n) = if char_at_is(s, m, '=') {
            match Promotion::parse_at(s, m) {
                Ok((p, n)) => (Some(p.0), n),
                Err(e) => return Err(e),
            }
        } else {
            (None, m)
        };
        let (check, end) = Check::parse_suffix_at(s, n);
        let detail = SanMoveDetail {
            piece: piecespec.piece,
            destination,
            from_file: piecespec.disambiguation.file(),
            from_rank: piecespec.disambiguation.rank(),
            capture,
            promote,
        };
        Ok((SanMove { move_type: SanMoveType::Move(detail), check }, end))
    }

    pub fn parse_at(s: &[char], i: usize) -> (r: Result<(SanMove, usize), PgnError>)
        requires
            i <= s@.len(),
        ensures
            agrees(r, spec_san_move(s@, i as int)),
            r matches Ok((_, j)) ==> i < j <= s@.len(),
    {
        if let Ok((move_type, check, k)) = SanMove::parse_castle(s, i) {
            return Ok((SanMove { move_type, check }, k));
        }
        SanMove::parse_ordinary_at(s, i)
    }

    /// Parses the SAN move at the start of `s`; returns it and the rest of `s`.
    pub fn parse(s: &str) -> (r: Result<(SanMove, &str), PgnError>)
        ensures
            agrees_tail(s@, r, spec_san_move(s@, 0)),
    {
        let v = chars_of(s);
        match SanMove::parse_at(v.as_slice(), 0) {
            Ok((m, j)) => Ok((m, rest_of(s, j, v.len()))),
            Err(e) => Err(e),
        }
    }
}

} // verus!
