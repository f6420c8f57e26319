use vstd::prelude::*;

use crate::error::{agrees, agrees_tail, PgnError};
use crate::text::{chars_of, first_char, rest_of};

verus! {

/// A board column: `a` to `h`, held as 1 to 8.
#[derive(Debug, PartialEq, Eq, Structural, Clone, Copy)]
pub struct File(pub u8);

/// A board row: `1` to `8`, held as 1 to 8.
#[derive(Debug, PartialEq, Eq, Structural, Clone, Copy)]
pub struct Rank(pub u8);

/// A board square.
#[derive(Debug, PartialEq, Eq, Structural, Clone, Copy)]
pub struct Square {
    pub rank: Rank,
    pub file: File,
}

pub open spec fn is_file_char(c: char) -> bool {
    'a' <= c && c <= 'h'
}

pub open spec fn is_rank_char(c: char) -> bool {
    '1' <= c && c <= '8'
}

/// The file that a letter `a` to `h` names.
pub open spec fn file_of(c: char) -> File {
    File((c as u32 - 96) as u8)
}

/// The rank that a digit `1` to `8` names.
pub open spec fn rank_of(c: char) -> Rank {
    Rank((c as u32 - 48) as u8)
}

/// The file at index `i` of `s`, and the index after it.
pub open spec fn spec_file(s: Seq<char>, i: int) -> Result<(File, int), PgnError> {
    if i >= s.len() {
        Err(PgnError::UnexpectedEOF("file"))
    } else if !is_file_char(s[i]) {
        Err(PgnError::UnexpectedInput("file", s[i]))
    } else {
        Ok((file_of(s[i]), i + 1))
    }
}

/// The rank at index `i` of `s`, and the index after it.
pub open spec fn spec_rank(s: Seq<char>, i: int) -> Result<(Rank, int), PgnError> {
    if i >= s.len() {
        Err(PgnError::UnexpectedEOF("rank"))
    } else if !is_rank_char(s[i]) {
        Err(PgnError::UnexpectedInput("rank", s[i]))
    } else {
        Ok((rank_of(s[i]), i + 1))
    }
}

/// The square at index `i` of `s` (a file, then a rank), and the index after it.
pub open spec fn spec_square(s: Seq<char>, i: int) -> Result<(Square, int), PgnError> {
    match spec_file(s, i) {
        Ok((file, j)) => match spec_rank(s, j) {
            Ok((rank, k)) => Ok((Square { rank, file }, k)),
            Err(e) => Err(e),
        },
        Err(e) => Err(e),
    }
}

/// Whether `s` holds, at index `i`, a character that can start a square.
pub open spec fn starts_square(s: Seq<char>, i: int) -> bool {
    0 <= i < s.len() && is_file_char(s[i])
}

impl File {
    pub open spec fn wf(self) -> bool {
        1 <= self.0 <= 8
    }

    /// The file that `c` names, if it is a letter `a` to `h`.
    pub fn from_char(c: char) -> (r: Option<File>)
        ensures
            r == (if is_file_char(c) {
                Some(file_of(c))
            } else {
                None::<File>
            }),
            r matches Some(f) ==> f.wf(),
    {
        if 'a' <= c && c <= 'h' {
            Some(File((c as u32 - 96) as u8))
        } else {
            None
        }
    }

    /// The letter that names this file.
    pub fn to_char(self) -> (c: char)
        requires
            self.wf(),
        ensures
            is_file_char(c),
            file_of(c) == self,
    {
        if self.0 == 1 {
            'a'
        } else if self.0 == 2 {
            'b'
        } else if self.0 == 3 {
            'c'
        } else if self.0 == 4 {
            'd'
        } else if self.0 == 5 {
            'e'
        } else if self.0 == 6 {
            'f'
        } else if self.0 == 7 {
            'g'
        } else {
            'h'
        }
    }

    /// Whether `s` starts with a letter `a` to `h`.
    pub fn check_start(s: &str) -> (r: bool)
        ensures
            r == starts_square(s@, 0),
    {
        match first_char(s) {
            Some(c) => 'a' <= c && c <= 'h',
            None => false,
        }
    }

    pub fn parse_at(s: &[char], i: usize) -> (r: Result<(File, usize), PgnError>)
        requires
            i <= s@.len(),
        ensures
            agrees(r, spec_file(s@, i as int)),
            r matches Ok((f, j)) ==> f.wf() && j == i + 1 && j <= s@.len(),
    {
        if i >= s.len() {
            return Err(PgnError::UnexpectedEOF("file"));
        }
        match File::from_char(s[i]) {
            Some(f) => Ok((f, i + 1)),
            None => Err(PgnError::UnexpectedInput("file", s[i])),
        }
    }

    /// Parses the file letter at the start of `s`; returns it and the rest of `s`.
    pub fn parse(s: &str) -> (r: Result<(File, &str), PgnError>)
        ensures
            agrees_tail(s@, r, spec_file(s@, 0)),
    {
        let v = chars_of(s);
        match File::parse_at(v.as_slice(), 0) {
            Ok((f, j)) => Ok((f, rest_of(s, j, v.len()))),
            Err(e) => Err(e),
        }
    }
}

impl Rank {
    pub open spec fn wf(self) -> bool {
        1 <= self.0 <= 8
    }

    /// The rank that `c` names, if it is a digit `1` to `8`.
    pub fn from_char(c: char) -> (r: Option<Rank>)
        ensures
            r == (if is_rank_char(c) {
                Some(rank_of(c))
            } else {
                None::<Rank>
            }),
            r matches Some(k) ==> k.wf(),
    {
        if '1' <= c && c <= '8' {
            Some(Rank((c as u32 - 48) as u8))
        } else {
            None
        }
    }

    /// Whether `s` starts with a digit `1` to `8`.
    pub fn check_start(s: &str) -> (r: bool)
        ensures
            r == (s@.len() > 0 && is_rank_char(s@[0])),
    {
        match first_char(s) {
            Some(c) => '1' <= c && c <= '8',
            None => false,
        }
    }

    pub fn parse_at(s: &[char], i: usize) -> (r: Result<(Rank, usize), PgnError>)
        requires
            i <= s@.len(),
        ensures
            agrees(r, spec_rank(s@, i as int)),
            r matches Ok((k, j)) ==> k.wf() && j == i + 1 && j <= s@.len(),
    {
        if i >= s.len() {
            return Err(PgnError::UnexpectedEOF("rank"));
        }
        match Rank::from_char(s[i]) {
            Some(k) => Ok((k, i + 1)),
            None => Err(PgnError::UnexpectedInput("rank", s[i])),
        }
    }

    /// Parses the rank digit at the start of `s`; returns it and the rest of `s`.
    pub fn parse(s: &str) -> (r: Result<(Rank, &str), PgnError>)
        ensures
            agrees_tail(s@, r, spec_rank(s@, 0)),
    {
        let v = chars_of(s);
        match Rank::parse_at(v.as_slice(), 0) {
            Ok((k, j)) => Ok((k, rest_of(s, j, v.len()))),
            Err(e) => Err(e),
        }
    }
}

impl Square {
    pub open spec fn wf(self) -> bool {
        self.rank.wf() && self.file.wf()
    }

    /// Whether `s` starts with a letter `a` to `h`, as every square does.
    pub fn check_start(s: &str) -> (r: bool)
        ensures
            r == starts_square(s@, 0),
    {
        File::check_start(s)
    }

    pub fn parse_at(s: &[char], i: usize) -> (r: Result<(Square, usize), PgnError>)
        requires
            i <= s@.len(),
        ensures
            agrees(r, spec_square(s@, i as int)),
            r matches Ok((q, j)) ==> q.wf() && j == i + 2 && j <= s@.len(),
    {
        let (file, j) = match File::parse_at(s, i) {
            Ok(p) => p,
            Err(e) => return Err(e),
        };
        let (rank, k) = match Rank::parse_at(s, j) {
            Ok(p) => p,
            Err(e) => return Err(e),
        };
        Ok((Square { rank, file }, k))
    }

    /// Parses the square at the start of `s`; returns it and the rest of `s`.
    pub fn parse(s: &str) -> (r: Result<(Square, &str), PgnError>)
        ensures
            agrees_tail(s@, r, spec_square(s@, 0)),
    {
        let v = chars_of(s);
        match Square::parse_at(v.as_slice(), 0) {
            Ok((q, j)) => Ok((q, rest_of(s, j, v.len()))),
            Err(e) => Err(e),
        }
    }
}

impl core::convert::TryFrom<char> for File {
    type Error = PgnError;

    fn try_from(c: char) -> (r: Result<File, PgnError>) {
        match File::from_char(c) {
            Some(f) => Ok(f),
            None => Err(PgnError::UnexpectedInput("file", c)),
        }
    }
}

impl vstd::std_specs::convert::TryFromSpecImpl<char> for File {
    open spec fn obeys_try_from_spec() -> bool {
        true
    }

    open spec fn try_from_spec(c: char) -> Result<File, PgnError> {
        if is_file_char(c) {
            Ok(file_of(c))
        } else {
            Err(PgnError::UnexpectedInput("file", c))
        }
    }
}

impl core::convert::TryFrom<char> for Rank {
    type Error = PgnError;

    fn try_from(c: char) -> (r: Result<Rank, PgnError>) {
        match Rank::from_char(c) {
            Some(k) => Ok(k),
            None => Err(PgnError::UnexpectedInput("rank", c)),
        }
    }
}

impl vstd::std_specs::convert::TryFromSpecImpl<char> for Rank {
    open spec fn obeys_try_from_spec() -> bool {
        true
    }

    open spec fn try_from_spec(c: char) -> Result<Rank, PgnError> {
        if is_rank_char(c) {
            Ok(rank_of(c))
        } else {
            Err(PgnError::UnexpectedInput("rank", c))
        }
    }
}

} // verus!
