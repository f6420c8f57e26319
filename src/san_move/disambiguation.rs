use vstd::prelude::*;

use crate::error::{agrees, agrees_tail, PgnError};
use crate::san_move::board::{
    file_of, is_file_char, is_rank_char, rank_of, spec_square, starts_square, File, Rank, Square,
};
use crate::text::{at_is, char_at_is, chars_of, first_char, rest_of};

verus! {

/// What a move names of the square its piece comes from.
#[derive(Debug, PartialEq, Eq, Structural, Clone, Copy)]
pub enum Disambiguation {
    FileLetter(File),
    RankNumber(Rank),
    SquareCoord(Square),
    Absent,
}

/// The file that a disambiguation names, if any.
pub open spec fn disambiguation_file(d: Disambiguation) -> Option<File> {
    match d {
        Disambiguation::FileLetter(f) => Some(f),
        Disambiguation::SquareCoord(q) => Some(q.file),
        _ => None,
    }
}

/// The rank that a disambiguation names, if any.
pub open spec fn disambiguation_rank(d: Disambiguation) -> Option<Rank> {
    match d {
        Disambiguation::RankNumber(k) => Some(k),
        Disambiguation::SquareCoord(q) => Some(q.rank),
        _ => None,
    }
}

/// Whether what stands at index `i` of `s` may follow a disambiguation: a capture
/// marker or the start of the destination square.
pub open spec fn follows_disambiguation(s: Seq<char>, i: int) -> bool {
    at_is(s, i, 'x') || starts_square(s, i)
}

/// Whether `s` holds, at index `i`, a character that can start a disambiguation.
pub open spec fn starts_disambiguation(s: Seq<char>, i: int) -> bool {
    0 <= i < s.len() && (is_file_char(s[i]) || is_rank_char(s[i]))
}

/// The disambiguation at index `i` of `s`: a square, else a file, else a rank,
/// accepted only where a capture marker or a square follows it.
pub open spec fn spec_disambiguation(s: Seq<char>, i: int) -> Result<(Disambiguation, int), PgnError> {
    if i >= s.len() {
        Err(PgnError::UnexpectedEOF("disambiguation"))
    } else if spec_square(s, i) is Ok {
        let (q, j) = spec_square(s, i)->Ok_0;
        if follows_disambiguation(s, j) {
            Ok((Disambiguation::SquareCoord(q), j))
        } else {
            Err(PgnError::UnmatchedFollowSet("disambiguation"))
        }
    } else if is_file_char(s[i]) {
        if follows_disambiguation(s, i + 1) {
            Ok((Disambiguation::FileLetter(file_of(s[i])), i + 1))
        } else {
            Err(PgnError::UnmatchedFollowSet("disambiguation"))
        }
    } else if is_rank_char(s[i]) {
        if follows_disambiguation(s, i + 1) {
            Ok((Disambiguation::RankNumber(rank_of(s[i])), i + 1))
        } else {
            Err(PgnError::UnmatchedFollowSet("disambiguation"))
        }
    } else {
        Err(PgnError::UnexpectedInput("disambiguation", s[i]))
    }
}

fn follows_disambiguation_at(s: &[char], i: usize) -> (r: bool)
    ensures
        r == follows_disambiguation(s@, i as int),
{
    char_at_is(s, i, 'x') || (i < s.len() && 'a' <= s[i] && s[i] <= 'h')
}

impl Disambiguation {
    /// The file this names, if any.
    pub fn file(&self) -> (r: Option<File>)
        ensures
            r == disambiguation_file(*self),
    {
        match self {
            Disambiguation::FileLetter(file) => Some(*file),
            Disambiguation::SquareCoord(square) => Some(square.file),
            _ => None,
        }
    }

    /// The rank this names, if any.
    pub fn rank(&self) -> (r: Option<Rank>)
        ensures
            r == disambiguation_rank(*self),
    {
        match self {
            Disambiguation::RankNumber(rank) => Some(*rank),
            Disambiguation::SquareCoord(square) => Some(square.rank),
            _ => None,
        }
    }

    /// Succeeds where `s` starts with what may follow a disambiguation: a capture
    /// marker or a file letter.
    pub fn check_follow(s: &str) -> (r: Result<(), PgnError>)
        ensures
            r is Ok <==> follows_disambiguation(s@, 0),
            r is Err ==> r == Err::<(), PgnError>(PgnError::UnmatchedFollowSet("disambiguation")),
    {
        match first_char(s) {
            Some(c) => if c == 'x' || ('a' <= c && c <= 'h') {
                Ok(())
            } else {
                Err(PgnError::UnmatchedFollowSet("disambiguation"))
            },
            None => Err(PgnError::UnmatchedFollowSet("disambiguation")),
        }
    }

    /// Whether `s` starts with a file letter or a rank digit.
    pub fn check_start(s: &str) -> (r: bool)
        ensures
            r == starts_disambiguation(s@, 0),
    {
        match first_char(s) {
            Some(c) => ('a' <= c && c <= 'h') || ('1' <= c && c <= '8'),
            None => false,
        }
    }

    pub fn parse_at(s: &[char], i: usize) -> (r: Result<(Disambiguation, usize), PgnError>)
        requires
            i <= s@.len(),
        ensures
            agrees(r, spec_disambiguation(s@, i as int)),
            r matches Ok((_, j)) ==> i < j <= s@.len(),
    {
        if i >= s.len() {
            return Err(PgnError::UnexpectedEOF("disambiguation"));
        }
        if let Ok((square, j)) = Square::parse_at(s, i) {
            if follows_disambiguation_at(s, j) {
                return Ok((Disambiguation::SquareCoord(square), j));
            } else {
                return Err(PgnError::UnmatchedFollowSet("disambiguation"));
            }
        }
        if let Some(file) = File::from_char(s[i]) {
            if follows_disambiguation_at(s, i + 1) {
                return Ok((Disambiguation::FileLetter(file), i + 1));
            } else {
                return Err(PgnError::UnmatchedFollowSet("disambiguation"));
            }
        }
        if let Some(rank) = Rank::from_char(s[i]) {
            if follows_disambiguation_at(s, i + 1) {
                return Ok((Disambiguation::RankNumber(rank), i + 1));
            } else {
                return Err(PgnError::UnmatchedFollowSet("disambiguation"));
            }
        }
        Err(PgnError::UnexpectedInput("disambiguation", s[i]))
    }

    /// Parses the disambiguation at the start of `s`; returns it and the rest of `s`.
    pub fn parse(s: &str) -> (r: Result<(Disambiguation, &str), PgnError>)
        ensures
            agrees_tail(s@, r, spec_disambiguation(s@, 0)),
    {
        let v = chars_of(s);
        match Disambiguation::parse_at(v.as_slice(), 0) {
            Ok((d, j)) => Ok((d, rest_of(s, j, v.len()))),
            Err(e) => Err(e),
        }
    }
}

} // verus!
