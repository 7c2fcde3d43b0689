//! A position in a token sequence, with one token of lookahead.
use vstd::prelude::*;
use crate::token::{lexemes, Lexeme, TokenWithContext};

verus! {

/// A cursor over a borrowed token sequence.
///
/// It only moves forward, one token at a time, and never past the end.
pub struct Cursor<'a> {
    tokens: &'a Vec<TokenWithContext>,
    position: usize,
}

impl<'a> Cursor<'a> {
    #[verifier::type_invariant]
    closed spec fn within_bounds(self) -> bool {
        self.position <= self.tokens@.len()
    }

    /// The whole sequence that the cursor runs over, consumed tokens included.
    pub closed spec fn source(&self) -> Seq<TokenWithContext> {
        self.tokens@
    }

    /// How many tokens have been consumed.
    pub closed spec fn consumed(&self) -> nat {
        self.position as nat
    }

    /// The lexemes of the whole sequence.
    pub open spec fn stream(&self) -> Seq<Lexeme> {
        lexemes(self.source())
    }

    /// The token that comes next, if any is left.
    pub open spec fn next_token(&self) -> Option<TokenWithContext> {
        if self.consumed() < self.source().len() {
            Some(self.source()[self.consumed() as int])
        } else {
            None
        }
    }

    /// A cursor at the start of `tokens`.
    pub fn new(tokens: &'a Vec<TokenWithContext>) -> (cursor: Self)
        ensures
            cursor.source() == tokens@,
            cursor.consumed() == 0,
    {
        Cursor { tokens, position: 0 }
    }

    /// The number of tokens consumed so far.
    pub fn position(&self) -> (position: usize)
        ensures
            position == self.consumed(),
            position <= self.source().len(),
    {
        proof {
            use_type_invariant(self);
        }
        self.position
    }

    /// The next token, left in place.
    ///
    /// The cursor is borrowed shared, so it stands where it stood, and the
    /// result depends on nothing but where it stands: peeking again gives the
    /// same token.
    pub fn peek(&self) -> (token: Option<&'a TokenWithContext>)
        ensures
            self.consumed() <= self.source().len(),
            token.is_some() == self.next_token().is_some(),
            token.is_some() ==> *token.unwrap() == self.next_token().unwrap(),
    {
        proof {
            use_type_invariant(self);
        }
        if self.position < self.tokens.len() {
            Some(&self.tokens[self.position])
        } else {
            None
        }
    }

    /// Consumes the next token and returns it; at the end of the sequence it
    /// returns nothing and the cursor stays where it is.
    pub fn advance(&mut self) -> (token: Option<&'a TokenWithContext>)
        ensures
            final(self).source() == old(self).source(),
            final(self).consumed() <= final(self).source().len(),
            token.is_some() == old(self).next_token().is_some(),
            token.is_some() ==> *token.unwrap() == old(self).next_token().unwrap(),
            final(self).consumed() == if token.is_some() {
                old(self).consumed() + 1
            } else {
                old(self).consumed()
            },
    {
        proof {
            use_type_invariant(&*self);
        }
        if self.position < self.tokens.len() {
            let token = &self.tokens[self.position];
            self.position = self.position + 1;
            Some(token)
        } else {
            None
        }
    }
}

} // verus!
