use vstd::prelude::*;

use crate::element::{spec_element_p, ElementModel, ElementP, GameTermination};
use crate::error::{agrees_view, agrees_view_tail, PgnError};
use crate::text::{
    at_is, char_at_is, chars_of, is_ascii_alphanumeric, is_ascii_alphanumeric_exec,
    lemma_skip_white_bounds, rest_of, skip_white, skip_whitespace,
};

verus! {

/// A sequence of movetext elements and nested variations, in move order.
#[derive(Debug, PartialEq, Eq)]
pub struct ElementSequence {
    pub members: Vec<SequenceMember>,
}

/// One member of an element sequence: an element, or a variation in parentheses.
#[derive(Debug, PartialEq, Eq)]
pub enum SequenceMember {
    Elem(ElementP),
    Recursion(ElementSequence),
}

/// The value of a sequence member: its element, or the members of its variation.
pub enum MemberModel {
    Elem(ElementModel),
    Recursion(Seq<MemberModel>),
}

pub open spec fn member_view(m: SequenceMember) -> MemberModel
    decreases m, 0int,
{
    match m {
        SequenceMember::Elem(e) => MemberModel::Elem(e@),
        SequenceMember::Recursion(es) => MemberModel::Recursion(
            members_view(es.members, es.members@.len() as int),
        ),
    }
}

/// The values of the first `n` members of `v`.
pub open spec fn members_view(v: Vec<SequenceMember>, n: int) -> Seq<MemberModel>
    decreases v, n,
{
    if 0 < n <= v@.len() {
        members_view(v, n - 1).push(member_view(v[n - 1]))
    } else {
        Seq::empty()
    }
}

impl View for SequenceMember {
    type V = MemberModel;

    open spec fn view(&self) -> MemberModel {
        member_view(*self)
    }
}

impl View for ElementSequence {
    type V = Seq<MemberModel>;

    open spec fn view(&self) -> Seq<MemberModel> {
        members_view(self.members, self.members@.len() as int)
    }
}

/// How deeply variations may nest, so that the parser's stack stays bounded.
pub const MAX_VARIATION_DEPTH: usize = 100;

/// Whether a sequence member starts at index `w` of `s`: a `(`, or a character
/// that starts an element (a letter or digit, `*` or `$`).
pub open spec fn starts_member(s: Seq<char>, w: int) -> bool {
    0 <= w < s.len() && (s[w] == '(' || is_ascii_alphanumeric(s[w]) || s[w] == '*' || s[w] == '$')
}

/// The members of the element sequence at index `i` of `s`, inside `depth`
/// variations, and the index where it stops: members are read, with the
/// whitespace around them, until no member starts; a member that starts and
/// does not parse is an error.
pub open spec fn spec_members(s: Seq<char>, i: int, depth: nat) -> Result<(Seq<MemberModel>, int), PgnError>
    decreases s.len() - i, 1int,
{
    if 0 <= i <= s.len() {
        proof {
            lemma_skip_white_bounds(s, i);
        }
        if !starts_member(s, skip_white(s, i)) {
            Ok((Seq::empty(), i))
        } else {
            match spec_member(s, skip_white(s, i), depth) {
                Err(x) => Err(x),
                Ok((m, j)) => if i < j <= s.len() {
                    proof {
                        lemma_skip_white_bounds(s, j);
                    }
                    match spec_members(s, skip_white(s, j), depth) {
                        Ok((rest, e)) => Ok((seq![m] + rest, e)),
                        Err(x) => Err(x),
                    }
                } else {
                    Ok((Seq::empty(), i))
                },
            }
        }
    } else {
        Ok((Seq::empty(), i))
    }
}

/// The member at index `w` of `s`, inside `depth` variations: a variation
/// `(` sequence `)`, or an element.
pub open spec fn spec_member(s: Seq<char>, w: int, depth: nat) -> Result<(MemberModel, int), PgnError>
    decreases s.len() - w, 0int,
{
    if at_is(s, w, '(') {
        if depth >= MAX_VARIATION_DEPTH {
            Err(PgnError::VariationTooDeep)
        } else {
            match spec_members(s, w + 1, depth + 1) {
                Err(x) => Err(x),
                Ok((inner, e)) => if at_is(s, skip_white(s, e), ')') {
                    Ok((MemberModel::Recursion(inner), skip_white(s, e) + 1))
                } else if skip_white(s, e) >= s.len() {
                    Err(PgnError::UnexpectedEOF("variation"))
                } else {
                    Err(PgnError::UnexpectedInput("variation", s[skip_white(s, e)]))
                },
            }
        }
    } else {
        match spec_element_p(s, w) {
            Ok((x, j)) => Ok((MemberModel::Elem(x), j)),
            Err(x) => Err(x),
        }
    }
}

proof fn lemma_members_view_prefix(v1: Vec<SequenceMember>, v2: Vec<SequenceMember>, n: int)
    requires
        0 <= n <= v1@.len(),
        n <= v2@.len(),
        forall|k: int| 0 <= k < n ==> v1@[k] == v2@[k],
    ensures
        members_view(v1, n) == members_view(v2, n),
    decreases n,
{
    if n > 0 {
        lemma_members_view_prefix(v1, v2, n - 1);
    }
}

proof fn lemma_members_view_push(v1: Vec<SequenceMember>, v2: Vec<SequenceMember>, m: SequenceMember)
    requires
        v2@ == v1@.push(m),
    ensures
        members_view(v2, v2@.len() as int) == members_view(v1, v1@.len() as int).push(
            member_view(m),
        ),
{
    lemma_members_view_prefix(v1, v2, v1@.len() as int);
}

fn starts_member_at(s: &[char], w: usize) -> (r: bool)
    ensures
        r == starts_member(s@, w as int),
{
    w < s.len() && (s[w] == '(' || is_ascii_alphanumeric_exec(s[w]) || s[w] == '*' || s[w] == '$')
}

fn parse_members(s: &[char], i: usize, depth: usize) -> (r: Result<(Vec<SequenceMember>, usize), PgnError>)
    requires
        i <= s@.len(),
        depth <= MAX_VARIATION_DEPTH,
    ensures
        match r {
            Ok((v, e)) => spec_members(s@, i as int, depth as nat) == Ok::<
                (Seq<MemberModel>, int),
                PgnError,
            >((members_view(v, v@.len() as int), e as int)) && i <= e <= s@.len(),
            Err(x) => spec_members(s@, i as int, depth as nat) == Err::<
                (Seq<MemberModel>, int),
                PgnError,
            >(x),
        },
    decreases s@.len() - i, 1int,
{
    let mut v: Vec<SequenceMember> = Vec::new();
    let mut pos = i;
    loop
        invariant
            i <= pos <= s@.len(),
            depth <= MAX_VARIATION_DEPTH,
            match spec_members(s@, pos as int, depth as nat) {
                Ok((rest, e)) => spec_members(s@, i as int, depth as nat) == Ok::<
                    (Seq<MemberModel>, int),
                    PgnError,
                >((members_view(v, v@.len() as int) + rest, e)),
                Err(x) => spec_members(s@, i as int, depth as nat) == Err::<
                    (Seq<MemberModel>, int),
                    PgnError,
                >(x),
            },
        decreases s@.len() - pos,
    {
        let w = skip_whitespace(s, pos);
        if !starts_member_at(s, w) {
            assert(members_view(v, v@.len() as int) + Seq::<MemberModel>::empty() =~= members_view(
                v,
                v@.len() as int,
            ));
            return Ok((v, pos));
        }
        match parse_member(s, w, depth) {
            Ok((m, j)) => {
                let k = skip_whitespace(s, j);
                proof {
                    let mv = members_view(v, v@.len() as int);
                    let rest = spec_members(s@, k as int, depth as nat);
                    if rest is Ok {
                        assert(mv + (seq![member_view(m)] + rest->Ok_0.0) =~= mv.push(
                            member_view(m),
                        ) + rest->Ok_0.0);
                    }
                }
                let ghost old_v = v;
                v.push(m);
                proof {
                    lemma_members_view_push(old_v, v, m);
                }
                pos = k;
            },
            Err(x) => {
                return Err(x);
            },
        }
    }
}

fn parse_member(s: &[char], w: usize, depth: usize) -> (r: Result<(SequenceMember, usize), PgnError>)
    requires
        w <= s@.len(),
        depth <= MAX_VARIATION_DEPTH,
    ensures
        match r {
            Ok((m, j)) => spec_member(s@, w as int, depth as nat) == Ok::<
                (MemberModel, int),
                PgnError,
            >((member_view(m), j as int)) && w < j <= s@.len(),
            Err(x) => spec_member(s@, w as int, depth as nat) == Err::<
                (MemberModel, int),
                PgnError,
            >(x),
        },
    decreases s@.len() - w, 0int,
{
    proof {
        assert(s@.len() == s.len());
    }
    if char_at_is(s, w, '(') {
        if depth >= MAX_VARIATION_DEPTH {
            return Err(PgnError::VariationTooDeep);
        }
        let (inner, e) = match parse_members(s, w + 1, depth + 1) {
            Ok(p) => p,
            Err(x) => return Err(x),
        };
        let c = skip_whitespace(s, e);
        if char_at_is(s, c, ')') {
            Ok((SequenceMember::Recursion(ElementSequence { members: inner }), c + 1))
        } else if c >= s.len() {
            Err(PgnError::UnexpectedEOF("variation"))
        } else {
            Err(PgnError::UnexpectedInput("variation", s[c]))
        }
    } else {
        match ElementP::parse_at(s, w) {
            Ok((x, j)) => Ok((SequenceMember::Elem(x), j)),
            Err(x) => Err(x),
        }
    }
}

impl ElementSequence {
    /// Parses the element sequence at index `i` of `s`: it stops where no member
    /// starts, and fails where a member starts and does not parse.
    pub fn parse_at(s: &[char], i: usize) -> (r: Result<(ElementSequence, usize), PgnError>)
        requires
            i <= s@.len(),
        ensures
            agrees_view(r, spec_members(s@, i as int, 0)),
            r matches Ok((_, j)) ==> i <= j <= s@.len(),
    {
        match parse_members(s, i, 0) {
            Ok((members, e)) => Ok((ElementSequence { members }, e)),
            Err(x) => Err(x),
        }
    }

    /// Parses the element sequence at the start of `s`; returns it and the rest of `s`.
    pub fn parse(s: &str) -> (r: Result<(ElementSequence, &str), PgnError>)
        ensures
            agrees_view_tail(s@, r, spec_members(s@, 0, 0)),
    {
        let v = chars_of(s);
        match ElementSequence::parse_at(v.as_slice(), 0) {
            Ok((q, j)) => Ok((q, rest_of(s, j, v.len()))),
            Err(x) => Err(x),
        }
    }
}

/// A game's movetext: its element sequence, and how the game ended.
#[derive(Debug, PartialEq, Eq)]
pub struct MovetextSection {
    pub sequence: ElementSequence,
    pub termination: GameTermination,
}

pub struct MovetextModel {
    pub sequence: Seq<MemberModel>,
    pub termination: GameTermination,
}

impl View for MovetextSection {
    type V = MovetextModel;

    open spec fn view(&self) -> MovetextModel {
        MovetextModel { sequence: self.sequence@, termination: self.termination }
    }
}

/// Whether the last of `ms` is a game-termination element.
pub open spec fn ends_with_termination(ms: Seq<MemberModel>) -> bool {
    ms.len() > 0 && ms.last() is Elem && ms.last()->Elem_0 is Termination
}

/// The movetext that the members `ms` make: a termination that ends them is
/// taken off into the termination; where none does, the game is unterminated.
pub open spec fn split_termination(ms: Seq<MemberModel>) -> MovetextModel {
    if ends_with_termination(ms) {
        MovetextModel {
            sequence: ms.drop_last(),
            termination: ms.last()->Elem_0->Termination_0,
        }
    } else {
        MovetextModel { sequence: ms, termination: GameTermination::Unterminated }
    }
}

/// The movetext section at index `i` of `s`, and the index where it stops.
pub open spec fn spec_movetext(s: Seq<char>, i: int) -> Result<(MovetextModel, int), PgnError> {
    match spec_members(s, i, 0) {
        Ok((ms, e)) => Ok((split_termination(ms), e)),
        Err(x) => Err(x),
    }
}

proof fn lemma_members_view_len(v: Vec<SequenceMember>, n: int)
    requires
        0 <= n <= v@.len(),
    ensures
        members_view(v, n).len() == n,
    decreases n,
{
    if n > 0 {
        lemma_members_view_len(v, n - 1);
    }
}

impl ElementSequence {
    /// Whether the sequence has no members.
    pub fn is_empty(&self) -> (r: bool)
        ensures
            r == (self@.len() == 0),
    {
        proof {
            lemma_members_view_len(self.members, self.members@.len() as int);
        }
        self.members.len() == 0
    }
}

impl MovetextSection {
    /// Whether the section has no elements (a termination alone leaves it empty).
    pub fn is_empty(&self) -> (r: bool)
        ensures
            r == (self@.sequence.len() == 0),
    {
        self.sequence.is_empty()
    }

    /// Parses the movetext section at index `i` of `s`; fails where its element
    /// sequence does.
    pub fn parse_at(s: &[char], i: usize) -> (r: Result<(MovetextSection, usize), PgnError>)
        requires
            i <= s@.len(),
        ensures
            agrees_view(r, spec_movetext(s@, i as int)),
            r matches Ok((_, j)) ==> i <= j <= s@.len(),
    {
        let (mut members, e) = match parse_members(s, i, 0) {
            Ok(p) => p,
            Err(x) => return Err(x),
        };
        let n = members.len();
        if n > 0 {
            let termination = match &members[n - 1] {
                SequenceMember::Elem(ElementP::Termination(t)) => Some(*t),
                _ => None,
            };
            proof {
                assert(members_view(members, n as int) == members_view(members, n - 1).push(
                    member_view(members@[n - 1]),
                ));
            }
            if let Some(t) = termination {
                let ghost whole = members;
                members.pop();
                proof {
                    lemma_members_view_prefix(members, whole, n - 1);
                    assert(members_view(whole, n as int).drop_last() =~= members_view(
                        whole,
                        n - 1,
                    ));
                }
                return Ok(
                    (
                        MovetextSection {
                            sequence: ElementSequence { members },
                            termination: t,
                        },
                        e,
                    ),
                );
            }
        }
        Ok(
            (
                MovetextSection {
                    sequence: ElementSequence { members },
                    termination: GameTermination::Unterminated,
                },
                e,
            ),
        )
    }

    /// Parses the movetext section at the start of `s`; returns it and the rest of `s`.
    pub fn parse(s: &str) -> (r: Result<(MovetextSection, &str), PgnError>)
        ensures
            agrees_view_tail(s@, r, spec_movetext(s@, 0)),
    {
        let v = chars_of(s);
        match MovetextSection::parse_at(v.as_slice(), 0) {
            Ok((m, j)) => Ok((m, rest_of(s, j, v.len()))),
            Err(x) => Err(x),
        }
    }
}

} // verus!
