use vstd::prelude::*;

use crate::error::{agrees_view, agrees_view_tail, PgnError};
use crate::text::{
    chars_of, first_char, is_ascii_alphanumeric, is_ascii_alphanumeric_exec, rest_of, string_of,
};

verus! {

/// A symbol token: a letter or digit followed by letters, digits and `_ + # = : -`.
#[derive(Debug, PartialEq, Eq)]
pub struct Symbol(pub String);

impl View for Symbol {
    type V = Seq<char>;

    open spec fn view(&self) -> Seq<char> {
        self.0@
    }
}

pub open spec fn is_symbol_continuation(c: char) -> bool {
    is_ascii_alphanumeric(c) || c == '_' || c == '+' || c == '#' || c == '=' || c == ':' || c
        == '-'
}

/// The first index at or after `i` that does not hold a symbol continuation character.
pub open spec fn symbol_end(s: Seq<char>, i: int) -> int
    decreases s.len() - i,
{
    if 0 <= i < s.len() && is_symbol_continuation(s[i]) {
        symbol_end(s, i + 1)
    } else {
        i
    }
}

/// The symbol that starts at index `i` of `s`, and the index after it.
pub open spec fn spec_symbol(s: Seq<char>, i: int) -> Result<(Seq<char>, int), PgnError> {
    if i >= s.len() {
        Err(PgnError::UnexpectedEOF("symbol"))
    } else if !is_ascii_alphanumeric(s[i]) {
        Err(PgnError::UnexpectedInput("symbol", s[i]))
    } else {
        Ok((s.subrange(i, symbol_end(s, i)), symbol_end(s, i)))
    }
}

fn is_identifier_continuation(ch: char) -> (r: bool)
    ensures
        r == is_symbol_continuation(ch),
{
    is_ascii_alphanumeric_exec(ch) || ch == '_' || ch == '+' || ch == '#' || ch == '=' || ch
        == ':' || ch == '-'
}

impl Symbol {
    /// Whether `s` starts with a character that can start a symbol.
    pub fn check_start(s: &str) -> (r: bool)
        ensures
            r == (s@.len() > 0 && is_ascii_alphanumeric(s@[0])),
    {
        match first_char(s) {
            Some(c) => is_ascii_alphanumeric_exec(c),
            None => false,
        }
    }

    /// Parses the symbol at index `i` of `s`; returns it and the index after it.
    pub fn parse_at(s: &[char], i: usize) -> (r: Result<(Symbol, usize), PgnError>)
        requires
            i <= s@.len(),
        ensures
            agrees_view(r, spec_symbol(s@, i as int)),
            r matches Ok((_, j)) ==> i < j <= s@.len(),
    {
        if i >= s.len() {
            return Err(PgnError::UnexpectedEOF("symbol"));
        }
        if !is_ascii_alphanumeric_exec(s[i]) {
            return Err(PgnError::UnexpectedInput("symbol", s[i]));
        }
        let mut j = i + 1;
        while j < s.len() && is_identifier_continuation(s[j])
            invariant
                i < j <= s@.len(),
                symbol_end(s@, j as int) == symbol_end(s@, i as int),
            decreases s@.len() - j,
        {
            j = j + 1;
        }
        Ok((Symbol(string_of(s, i, j)), j))
    }

    /// Parses the symbol at the start of `s`; returns it and the rest of `s`.
    pub fn parse(s: &str) -> (r: Result<(Symbol, &str), PgnError>)
        ensures
            agrees_view_tail(s@, r, spec_symbol(s@, 0)),
    {
        let v = chars_of(s);
        match Symbol::parse_at(v.as_slice(), 0) {
            Ok((sym, j)) => Ok((sym, rest_of(s, j, v.len()))),
            Err(e) => Err(e),
        }
    }
}

} // verus!
