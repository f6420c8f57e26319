use vstd::prelude::*;

use crate::error::{agrees_view, agrees_view_tail, PgnError};
use crate::movetext::{spec_movetext, MovetextModel, MovetextSection};
use crate::tags::{spec_tag_pairs, TagPairModel, TagSection};
use crate::text::{chars_of, lemma_skip_white_bounds, rest_of, skip_white, skip_whitespace};

verus! {

/// One game: its tag section and its movetext section.
#[derive(Debug, PartialEq, Eq)]
pub struct PgnGame {
    pub tag_section: TagSection,
    pub movetext_section: MovetextSection,
}

pub struct GameModel {
    pub tags: Seq<TagPairModel>,
    pub movetext: MovetextModel,
}

impl View for PgnGame {
    type V = GameModel;

    open spec fn view(&self) -> GameModel {
        GameModel { tags: self.tag_section@, movetext: self.movetext_section@ }
    }
}

/// The games of a PGN text, in order.
#[derive(Debug, PartialEq, Eq)]
pub struct PgnDatabase {
    pub games: Vec<PgnGame>,
}

impl View for PgnDatabase {
    type V = Seq<GameModel>;

    open spec fn view(&self) -> Seq<GameModel> {
        self.games@.map_values(|g: PgnGame| g@)
    }
}

/// The game at index `i` of `s`: a tag section, then a movetext section. It fails
/// where either of them does, and a game with neither tag pairs nor movetext
/// elements is rejected.
pub open spec fn spec_game(s: Seq<char>, i: int) -> Result<(GameModel, int), PgnError> {
    match spec_tag_pairs(s, i) {
        Err(x) => Err(x),
        Ok((tags, a)) => match spec_movetext(s, skip_white(s, a)) {
            Err(x) => Err(x),
            Ok((movetext, e)) => if tags.len() == 0 && movetext.sequence.len() == 0 {
                Err(PgnError::EmptyGame)
            } else {
                Ok((GameModel { tags, movetext }, e))
            },
        },
    }
}

/// The games at index `i` of `s`, and the index where they stop: games are
/// read, with the whitespace around them, until one does not parse; the games
/// before it are kept.
pub open spec fn spec_games(s: Seq<char>, i: int) -> (Seq<GameModel>, int)
    decreases s.len() - i,
{
    if 0 <= i <= s.len() {
        match spec_game(s, skip_white(s, i)) {
            Ok((g, j)) => if i < j <= s.len() {
                proof {
                    lemma_skip_white_bounds(s, j);
                }
                let (rest, e) = spec_games(s, skip_white(s, j));
                (seq![g] + rest, e)
            } else {
                (Seq::empty(), i)
            },
            Err(_) => (Seq::empty(), i),
        }
    } else {
        (Seq::empty(), i)
    }
}

impl PgnGame {
    pub fn parse_at(s: &[char], i: usize) -> (r: Result<(PgnGame, usize), PgnError>)
        requires
            i <= s@.len(),
        ensures
            agrees_view(r, spec_game(s@, i as int)),
            r matches Ok((_, j)) ==> i <= j <= s@.len(),
    {
        let (tag_section, a) = match TagSection::parse_at(s, i) {
            Ok(p) => p,
            Err(x) => return Err(x),
        };
        let (movetext_section, e) = match MovetextSection::parse_at(s, skip_whitespace(s, a)) {
            Ok(p) => p,
            Err(x) => return Err(x),
        };
        if tag_section.pairs.len() == 0 && movetext_section.is_empty() {
            Err(PgnError::EmptyGame)
        } else {
            Ok((PgnGame { tag_section, movetext_section }, e))
        }
    }

    /// Parses the game at the start of `s`; returns it and the rest of `s`.
    pub fn parse(s: &str) -> (r: Result<(PgnGame, &str), PgnError>)
        ensures
            agrees_view_tail(s@, r, spec_game(s@, 0)),
    {
        let v = chars_of(s);
        match PgnGame::parse_at(v.as_slice(), 0) {
            Ok((g, j)) => Ok((g, rest_of(s, j, v.len()))),
            Err(e) => Err(e),
        }
    }
}

impl PgnDatabase {
    /// Parses the games at index `i` of `s`; never fails, and stops before the
    /// first game that does not parse (or text that starts none).
    pub fn parse_at(s: &[char], i: usize) -> (r: (PgnDatabase, usize))
        requires
            i <= s@.len(),
        ensures
            r.0@ == spec_games(s@, i as int).0,
            r.1 == spec_games(s@, i as int).1,
            i <= r.1 <= s@.len(),
    {
        let mut games: Vec<PgnGame> = Vec::new();
        let mut pos = i;
        loop
            invariant
                i <= pos <= s@.len(),
                spec_games(s@, i as int) == (games@.map_values(|g: PgnGame| g@) + spec_games(
                    s@,
                    pos as int,
                ).0, spec_games(s@, pos as int).1),
            decreases s@.len() - pos,
        {
            let w = skip_whitespace(s, pos);
            match PgnGame::parse_at(s, w) {
                Ok((g, j)) => {
                    if j <= pos {
                        assert(games@.map_values(|g: PgnGame| g@) + Seq::<GameModel>::empty()
                            =~= games@.map_values(|g: PgnGame| g@));
                        return (PgnDatabase { games }, pos);
                    }
                    let k = skip_whitespace(s, j);
                    proof {
                        let gv = games@.map_values(|g: PgnGame| g@);
                        let rest = spec_games(s@, k as int);
                        assert(gv + (seq![g@] + rest.0) =~= gv.push(g@) + rest.0);
                        assert(games@.push(g).map_values(|g: PgnGame| g@) =~= gv.push(g@));
                    }
                    games.push(g);
                    pos = k;
                },
                Err(_) => {
                    assert(games@.map_values(|g: PgnGame| g@) + Seq::<GameModel>::empty()
                        =~= games@.map_values(|g: PgnGame| g@));
                    return (PgnDatabase { games }, pos);
                },
            }
        }
    }

    /// Parses the games at the start of `s`; returns them and the text where
    /// parsing stopped.
    pub fn parse(s: &str) -> (r: (PgnDatabase, &str))
        ensures
            r.0@ == spec_games(s@, 0).0,
            r.1@ == s@.subrange(spec_games(s@, 0).1, s@.len() as int),
    {
        let v = chars_of(s);
        let (d, j) = PgnDatabase::parse_at(v.as_slice(), 0);
        (d, rest_of(s, j, v.len()))
    }
}

/// Parses a PGN text into its database: the games read from its start, up to
/// the first game that does not parse.
pub fn parse_pgn(s: &str) -> (r: Result<PgnDatabase, PgnError>)
    ensures
        r is Ok,
        r matches Ok(d) ==> d@ == spec_games(s@, 0).0,
{
    let (database, _) = PgnDatabase::parse(s);
    Ok(database)
}

} // verus!
