//! Tokens of the calculator's input language, and finite sets of token kinds.

use vstd::prelude::*;

verus! {

/// The kind of a token.
#[derive(Copy, Debug, PartialEq, Eq, Hash, Structural)]
pub enum TokenType {
    Add,
    Sub,
    Mul,
    Div,
    Mod,
    Pow,
    Equal,
    Comma,
    OpenParen,
    CloseParen,
    Identifier,
    Integer,
    Float,
    Exponent,
    Error,
    EOL,
}

impl Clone for TokenType {
    fn clone(&self) -> (r: TokenType)
        ensures
            r == *self,
    {
        *self
    }
}

/// The mathematical content of a [`Token`]: its kind and the characters it was read from.
pub struct SpecToken {
    pub lexeme: Seq<char>,
    pub token_type: TokenType,
}

/// A token: its kind together with the exact text it was read from.
#[derive(Debug, PartialEq, Eq)]
pub struct Token {
    pub lexeme: String,
    pub token_type: TokenType,
}

impl View for Token {
    type V = SpecToken;

    open spec fn view(&self) -> SpecToken {
        SpecToken { lexeme: self.lexeme@, token_type: self.token_type }
    }
}

impl Clone for Token {
    fn clone(&self) -> (r: Token)
        ensures
            r@ == self@,
    {
        Token { lexeme: self.lexeme.clone(), token_type: self.token_type.clone() }
    }
}

/// The token that marks the end of the line: it has no text.
pub open spec fn end_of_line() -> SpecToken {
    SpecToken { lexeme: Seq::empty(), token_type: TokenType::EOL }
}

/// A finite set of token kinds, kept as a list in which no kind occurs twice.
pub struct TokenSet {
    members: Vec<TokenType>,
}

impl View for TokenSet {
    type V = Set<TokenType>;

    closed spec fn view(&self) -> Set<TokenType> {
        Set::new(|t: TokenType| self.members@.contains(t))
    }
}

impl TokenSet {
    /// No kind is listed twice.
    pub closed spec fn wf(&self) -> bool {
        self.members@.no_duplicates()
    }

    /// The empty set.
    pub fn new() -> (r: TokenSet)
        ensures
            r.wf(),
            r@ == Set::<TokenType>::empty(),
    {
        let r = TokenSet { members: Vec::new() };
        assert(r@ =~= Set::<TokenType>::empty());
        r
    }

    /// Whether `t` belongs to the set.
    pub fn contains(&self, t: TokenType) -> (r: bool)
        ensures
            r == self@.contains(t),
    {
        let mut i: usize = 0;
        while i < self.members.len()
            invariant
                i <= self.members.len(),
                forall|j: int| 0 <= j < i ==> self.members@[j] != t,
            decreases self.members.len() - i,
        {
            if self.members[i] == t {
                assert(self.members@.contains(t));
                return true;
            }
            i += 1;
        }
        false
    }

    /// Adds `t` to the set.
    pub fn insert(&mut self, t: TokenType)
        requires
            old(self).wf(),
        ensures
            final(self).wf(),
            final(self)@ == old(self)@.insert(t),
    {
        if !self.contains(t) {
            self.members.push(t);
            assert forall|u: TokenType| final(self)@.contains(u) == old(self)@.insert(t).contains(
                u,
            ) by {
                if old(self).members@.contains(u) {
                    let j = choose|j: int|
                        0 <= j < old(self).members@.len() && old(self).members@[j] == u;
                    assert(self.members@[j] == u);
                }
                if u == t {
                    assert(self.members@[self.members@.len() - 1] == t);
                }
            }
        }
        assert(final(self)@ =~= old(self)@.insert(t));
    }

    /// Adds every member of `other` to the set.
    pub fn extend(&mut self, other: &TokenSet)
        requires
            old(self).wf(),
        ensures
            final(self).wf(),
            final(self)@ == old(self)@.union(other@),
    {
        let mut i: usize = 0;
        while i < other.members.len()
            invariant
                i <= other.members.len(),
                self.wf(),
                forall|u: TokenType|
                    self@.contains(u) <==> (old(self)@.contains(u) || exists|j: int|
                        0 <= j < i && other.members@[j] == u),
            decreases other.members.len() - i,
        {
            let ghost before = self@;
            self.insert(other.members[i]);
            i += 1;
            assert forall|u: TokenType|
                self@.contains(u) <==> (old(self)@.contains(u) || exists|j: int|
                    0 <= j < i && other.members@[j] == u) by {
                if before.contains(u) && !old(self)@.contains(u) {
                    let j = choose|j: int| 0 <= j < i - 1 && other.members@[j] == u;
                    assert(0 <= j < i && other.members@[j] == u);
                }
                if u == other.members@[i - 1] {
                    assert(0 <= i - 1 < i && other.members@[i - 1] == u);
                }
            }
        }
        assert(final(self)@ =~= old(self)@.union(other@));
    }
}

} // verus!
