use vstd::prelude::*;

use crate::error::{agrees, agrees_view, agrees_view_tail, PgnError};
use crate::symbol::{spec_symbol, Symbol};
use crate::text::{
    at_is, char_at_is, chars_of, lemma_skip_white_bounds, rest_of, skip_white, skip_whitespace,
};
use crate::tokens::{parse_pgn_string_at, spec_string};

verus! {

/// One `[name "value"]` pair of a game's tag section.
#[derive(Debug, PartialEq, Eq)]
pub struct TagPair {
    pub name: String,
    pub value: String,
}

pub struct TagPairModel {
    pub name: Seq<char>,
    pub value: Seq<char>,
}

impl View for TagPair {
    type V = TagPairModel;

    open spec fn view(&self) -> TagPairModel {
        TagPairModel { name: self.name@, value: self.value@ }
    }
}

/// A game's tag pairs, in the order they stand.
#[derive(Debug, PartialEq, Eq)]
pub struct TagSection {
    pub pairs: Vec<TagPair>,
}

impl View for TagSection {
    type V = Seq<TagPairModel>;

    open spec fn view(&self) -> Seq<TagPairModel> {
        self.pairs@.map_values(|p: TagPair| p@)
    }
}

/// The character `ch` at index `i` of `s`, and the index after it.
pub open spec fn spec_char(s: Seq<char>, i: int, ch: char, ctx: &'static str) -> Result<(char, int), PgnError> {
    if i >= s.len() {
        Err(PgnError::UnexpectedEOF(ctx))
    } else if s[i] != ch {
        Err(PgnError::UnexpectedInput(ctx, s[i]))
    } else {
        Ok((ch, i + 1))
    }
}

/// The tag pair at index `i` of `s`: `[`, a symbol, a quoted string, `]`, with
/// whitespace allowed between them.
pub open spec fn spec_tag_pair(s: Seq<char>, i: int) -> Result<(TagPairModel, int), PgnError> {
    match spec_char(s, i, '[', "tag pair") {
        Err(e) => Err(e),
        Ok((_, a)) => match spec_symbol(s, skip_white(s, a)) {
            Err(e) => Err(e),
            Ok((name, b)) => match spec_string(s, skip_white(s, b)) {
                Err(e) => Err(e),
                Ok((value, c)) => match spec_char(s, skip_white(s, c), ']', "tag pair") {
                    Err(e) => Err(e),
                    Ok((_, d)) => Ok((TagPairModel { name, value }, d)),
                },
            },
        },
    }
}

/// The tag pairs at index `i` of `s`, and the index where they stop: pairs are
/// read, with the whitespace around them, until no `[` starts one; a pair that
/// starts and does not parse is an error.
pub open spec fn spec_tag_pairs(s: Seq<char>, i: int) -> Result<(Seq<TagPairModel>, int), PgnError>
    decreases s.len() - i,
{
    if 0 <= i <= s.len() {
        if !at_is(s, skip_white(s, i), '[') {
            Ok((Seq::empty(), i))
        } else {
            match spec_tag_pair(s, skip_white(s, i)) {
                Err(x) => Err(x),
                Ok((p, j)) => if i < j <= s.len() {
                    proof {
                        lemma_skip_white_bounds(s, j);
                    }
                    match spec_tag_pairs(s, skip_white(s, j)) {
                        Ok((rest, e)) => Ok((seq![p] + rest, e)),
                        Err(x) => Err(x),
                    }
                } else {
                    Ok((Seq::empty(), i))
                },
            }
        }
    } else {
        Ok((Seq::empty(), i))
    }
}

fn parse_char(s: &[char], i: usize, ch: char, ctx: &'static str) -> (r: Result<(char, usize), PgnError>)
    requires
        i <= s@.len(),
    ensures
        agrees(r, spec_char(s@, i as int, ch, ctx)),
        r matches Ok((_, j)) ==> j == i + 1 && j <= s@.len(),
{
    if i >= s.len() {
        Err(PgnError::UnexpectedEOF(ctx))
    } else if s[i] != ch {
        Err(PgnError::UnexpectedInput(ctx, s[i]))
    } else {
        Ok((ch, i + 1))
    }
}

fn parse_tag_name(s: &[char], i: usize) -> (r: Result<(String, usize), PgnError>)
    requires
        i <= s@.len(),
    ensures
        agrees_view(r, spec_symbol(s@, i as int)),
        r matches Ok((_, j)) ==> i < j <= s@.len(),
{
    match Symbol::parse_at(s, i) {
        Ok((symbol, j)) => Ok((symbol.0, j)),
        Err(e) => Err(e),
    }
}

fn parse_tag_value(s: &[char], i: usize) -> (r: Result<(String, usize), PgnError>)
    requires
        i <= s@.len(),
    ensures
        agrees_view(r, spec_string(s@, i as int)),
        r matches Ok((_, j)) ==> i < j <= s@.len(),
{
    parse_pgn_string_at(s, i)
}

impl TagPair {
    /// Whether `s` starts with `[`.
    pub fn check_start(s: &str) -> (r: bool)
        ensures
            r == (s@.len() > 0 && s@[0] == '['),
    {
        match crate::text::first_char(s) {
            Some(c) => c == '[',
            None => false,
        }
    }

    pub fn parse_at(s: &[char], i: usize) -> (r: Result<(TagPair, usize), PgnError>)
        requires
            i <= s@.len(),
        ensures
            agrees_view(r, spec_tag_pair(s@, i as int)),
            r matches Ok((_, j)) ==> i < j <= s@.len(),
    {
        let (_, a) = match parse_char(s, i, '[', "tag pair") {
            Ok(p) => p,
            Err(e) => return Err(e),
        };
        let (name, b) = match parse_tag_name(s, skip_whitespace(s, a)) {
            Ok(p) => p,
            Err(e) => return Err(e),
        };
        let (value, c) = match parse_tag_value(s, skip_whitespace(s, b)) {
            Ok(p) => p,
            Err(e) => return Err(e),
        };
        let (_, d) = match parse_char(s, skip_whitespace(s, c), ']', "tag pair") {
            Ok(p) => p,
            Err(e) => return Err(e),
        };
        Ok((TagPair { name, value }, d))
    }

    /// Parses the tag pair at the start of `s`; returns it and the rest of `s`.
    pub fn parse(s: &str) -> (r: Result<(TagPair, &str), PgnError>)
        ensures
            agrees_view_tail(s@, r, spec_tag_pair(s@, 0)),
    {
        let v = chars_of(s);
        match TagPair::parse_at(v.as_slice(), 0) {
            Ok((p, j)) => Ok((p, rest_of(s, j, v.len()))),
            Err(e) => Err(e),
        }
    }
}

impl TagSection {
    /// A tag section without pairs.
    pub fn empty() -> (r: TagSection)
        ensures
            r@.len() == 0,
    {
        TagSection { pairs: Vec::new() }
    }

    /// The pairs, in order.
    pub fn pairs(&self) -> (r: &Vec<TagPair>)
        ensures
            r@.map_values(|p: TagPair| p@) == self@,
    {
        &self.pairs
    }

    /// Parses the tag section at index `i` of `s`: it stops where no `[` starts
    /// a pair, and fails where a pair starts and does not parse.
    pub fn parse_at(s: &[char], i: usize) -> (r: Result<(TagSection, usize), PgnError>)
        requires
            i <= s@.len(),
        ensures
            agrees_view(r, spec_tag_pairs(s@, i as int)),
            r matches Ok((_, j)) ==> i <= j <= s@.len(),
    {
        let mut pairs: Vec<TagPair> = Vec::new();
        let mut pos = i;
        loop
            invariant
                i <= pos <= s@.len(),
                match spec_tag_pairs(s@, pos as int) {
                    Ok((rest, e)) => spec_tag_pairs(s@, i as int) == Ok::<
                        (Seq<TagPairModel>, int),
                        PgnError,
                    >((pairs@.map_values(|p: TagPair| p@) + rest, e)),
                    Err(x) => spec_tag_pairs(s@, i as int) == Err::<
                        (Seq<TagPairModel>, int),
                        PgnError,
                    >(x),
                },
            decreases s@.len() - pos,
        {
            let w = skip_whitespace(s, pos);
            if !char_at_is(s, w, '[') {
                assert(pairs@.map_values(|p: TagPair| p@) + Seq::<TagPairModel>::empty()
                    =~= pairs@.map_values(|p: TagPair| p@));
                return Ok((TagSection { pairs }, pos));
            }
            match TagPair::parse_at(s, w) {
                Ok((p, j)) => {
                    let k = skip_whitespace(s, j);
                    proof {
                        let pv = pairs@.map_values(|p: TagPair| p@);
                        let rest = spec_tag_pairs(s@, k as int);
                        if rest is Ok {
                            assert(pv + (seq![p@] + rest->Ok_0.0) =~= pv.push(p@)
                                + rest->Ok_0.0);
                        }
                        assert(pairs@.push(p).map_values(|p: TagPair| p@) =~= pv.push(p@));
                    }
                    pairs.push(p);
                    pos = k;
                },
                Err(x) => {
                    return Err(x);
                },
            }
        }
    }

    /// Parses the tag section at the start of `s`; returns it and the rest of `s`.
    pub fn parse(s: &str) -> (r: Result<(TagSection, &str), PgnError>)
        ensures
            agrees_view_tail(s@, r, spec_tag_pairs(s@, 0)),
    {
        let v = chars_of(s);
        match TagSection::parse_at(v.as_slice(), 0) {
            Ok((t, j)) => Ok((t, rest_of(s, j, v.len()))),
            Err(x) => Err(x),
        }
    }
}

} // verus!
