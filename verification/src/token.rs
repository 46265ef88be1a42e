//! The token model: a tagged, recursively well-formed token tree and a
//! cursor over a flat token sequence with one token of lookahead.

use vstd::prelude::*;

verus! {

/// The delimiter kind of a token group.
#[derive(Clone, Copy, Debug, PartialEq, Eq, Structural)]
pub enum Delim {
    Paren,
    Brace,
    Bracket,
}

/// One lexical token: an identifier, a punctuation character, a literal, or
/// a delimited group of child tokens. Ownership is strictly top-down.
#[derive(Debug)]
pub enum Token {
    Ident(String),
    Punct(char),
    Lit(String),
    Group(Delim, Vec<Token>),
}

impl Token {
    /// Whether the token is an identifier whose text reads `s`.
    pub open spec fn is_ident_str(&self, s: Seq<char>) -> bool {
        self matches Token::Ident(t) && t@ == s
    }

    /// Whether the token is the punctuation character `c`.
    pub open spec fn is_punct(&self, c: char) -> bool {
        self matches Token::Punct(p) && p == c
    }
}

/// The texts of the identifier tokens of `toks`, in order, skipping
/// everything that is not an identifier.
pub open spec fn ident_views(toks: Seq<Token>) -> Seq<Seq<char>>
    decreases toks.len(),
{
    if toks.len() == 0 {
        Seq::empty()
    } else {
        ident_views(toks.drop_last())
            + match toks.last() {
                Token::Ident(s) => seq![s@],
                _ => Seq::<Seq<char>>::empty(),
            }
    }
}

/// The identifier texts of the direct children of a group token; the empty
/// sequence when the token is not a group.
pub open spec fn group_ident_views(tok: Token) -> Seq<Seq<char>> {
    match tok {
        Token::Group(_, children) => ident_views(children@),
        _ => Seq::empty(),
    }
}

/// Collects the texts of the identifier tokens of `toks`, in order.
pub fn idents_of(toks: &Vec<Token>) -> (r: Vec<String>)
    ensures
        r@.map_values(|s: String| s@) == ident_views(toks@),
{
    let mut r: Vec<String> = Vec::new();
    let mut i: usize = 0;
    while i < toks.len()
        invariant
            i <= toks@.len(),
            r@.map_values(|s: String| s@) == ident_views(toks@.take(i as int)),
        decreases toks@.len() - i,
    {
        assert(toks@.take(i + 1).drop_last() == toks@.take(i as int));
        if let Token::Ident(s) = &toks[i] {
            r.push(s.clone());
        }
        i += 1;
        assert(r@.map_values(|s: String| s@) =~= ident_views(toks@.take(i as int)));
    }
    assert(toks@.take(toks@.len() as int) == toks@);
    r
}

/// A cursor over a flat token sequence: peek and advance, expectation of a
/// punctuation token, and descent into the next group. Purely a position
/// over immutable input; no backtracking beyond one token of lookahead.
pub struct Cursor<'a> {
    pub toks: &'a Vec<Token>,
    pub pos: usize,
}

impl<'a> Cursor<'a> {
    /// The cursor position never runs past the end of the input.
    pub open spec fn wf(&self) -> bool {
        self.pos <= self.toks@.len()
    }

    /// How many tokens are left to consume.
    pub open spec fn remaining(&self) -> int {
        self.toks@.len() - self.pos
    }

    /// A fresh cursor at the start of `toks`.
    pub fn new(toks: &'a Vec<Token>) -> (c: Self)
        ensures
            c.toks == toks,
            c.pos == 0,
            c.wf(),
    {
        Cursor { toks, pos: 0 }
    }

    /// The next token, without advancing; `None` at the end of the input.
    pub fn peek(&self) -> (r: Option<&'a Token>)
        requires
            self.wf(),
        ensures
            match r {
                Some(t) => self.pos < self.toks@.len() && *t == self.toks@[self.pos as int],
                None => self.pos == self.toks@.len(),
            },
    {
        if self.pos < self.toks.len() {
            Some(&self.toks[self.pos])
        } else {
            None
        }
    }

    /// Expects the next token to be the punctuation character `c`,
    /// consuming it; anything else, or the end of the input, is rejected
    /// with `UnexpectedToken` and the cursor does not move.
    pub fn expect_punct(&mut self, c: char) -> (r: Result<(), crate::GenError>)
        requires
            old(self).wf(),
        ensures
            final(self).toks == old(self).toks,
            final(self).wf(),
            match r {
                Ok(()) => {
                    &&& old(self).pos < old(self).toks@.len()
                    &&& old(self).toks@[old(self).pos as int].is_punct(c)
                    &&& final(self).pos == old(self).pos + 1
                },
                Err(e) => {
                    &&& e == crate::GenError::UnexpectedToken
                    &&& final(self).pos == old(self).pos
                    &&& (old(self).pos == old(self).toks@.len() || !old(self).toks@[old(
                        self,
                    ).pos as int].is_punct(c))
                },
            },
    {
        if self.pos < self.toks.len() {
            if let Token::Punct(p) = &self.toks[self.pos] {
                if *p == c {
                    self.pos = self.pos + 1;
                    return Ok(());
                }
            }
        }
        Err(crate::GenError::UnexpectedToken)
    }

    /// Descends into the next token, which must be a group, consuming it
    /// and handing out the group's children; anything else, or the end of
    /// the input, is rejected with `MissingGroup` and the cursor does not
    /// move.
    pub fn descend_group(&mut self) -> (r: Result<&'a Vec<Token>, crate::GenError>)
        requires
            old(self).wf(),
        ensures
            final(self).toks == old(self).toks,
            final(self).wf(),
            match r {
                Ok(children) => {
                    &&& old(self).pos < old(self).toks@.len()
                    &&& old(self).toks@[old(self).pos as int] matches Token::Group(_, ch) && ch@
                        == children@
                    &&& final(self).pos == old(self).pos + 1
                },
                Err(e) => {
                    &&& e == crate::GenError::MissingGroup
                    &&& final(self).pos == old(self).pos
                    &&& (old(self).pos == old(self).toks@.len() || !(old(self).toks@[old(
                        self,
                    ).pos as int] is Group))
                },
            },
    {
        if self.pos < self.toks.len() {
            if let Token::Group(_, children) = &self.toks[self.pos] {
                self.pos = self.pos + 1;
                return Ok(children);
            }
        }
        Err(crate::GenError::MissingGroup)
    }

    /// The next token, advancing past it; `None` at the end of the input.
    pub fn advance(&mut self) -> (r: Option<&'a Token>)
        requires
            old(self).wf(),
        ensures
            final(self).toks == old(self).toks,
            final(self).wf(),
            match r {
                Some(t) => {
                    &&& old(self).pos < old(self).toks@.len()
                    &&& *t == old(self).toks@[old(self).pos as int]
                    &&& final(self).pos == old(self).pos + 1
                },
                None => {
                    &&& old(self).pos == old(self).toks@.len()
                    &&& final(self).pos == old(self).pos
                },
            },
    {
        if self.pos < self.toks.len() {
            let t = &self.toks[self.pos];
            self.pos = self.pos + 1;
            Some(t)
        } else {
            None
        }
    }
}

} // verus!
