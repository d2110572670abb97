//! A one-pass cursor over a token sequence, with one token of lookahead.

use vstd::prelude::*;
use crate::token::{token_views, Token, TokenView};

verus! {

/// The tokens that are still to be read, handed out from the front and
/// never taken back.
#[derive(Debug)]
pub struct TokenIterator {
    /// The tokens still to be read, the next one last.
    stack: Vec<Token>,
}

impl View for TokenIterator {
    type V = Seq<TokenView>;

    /// The tokens still to be read, the next one first.
    closed spec fn view(&self) -> Seq<TokenView> {
        token_views(self.stack@.reverse())
    }
}

impl TokenIterator {
    /// A cursor in front of the first token of `tokens`.
    pub fn new(tokens: Vec<Token>) -> (iter: TokenIterator)
        ensures
            iter@ == token_views(tokens@),
    {
        let ghost all = tokens@;
        let mut tokens = tokens;
        let mut stack: Vec<Token> = Vec::new();
        while tokens.len() > 0
            invariant
                tokens@.len() <= all.len(),
                tokens@ == all.take(tokens@.len() as int),
                stack@ == all.skip(tokens@.len() as int).reverse(),
            decreases tokens.len(),
        {
            let token = tokens.pop().unwrap();
            stack.push(token);
        }
        TokenIterator { stack }
    }

    /// The next token, which stays in place.
    pub fn peek(&self) -> (token: Option<&Token>)
        ensures
            match token {
                Some(t) => self@.len() > 0 && t@ == self@[0],
                None => self@.len() == 0,
            },
    {
        let n: usize = self.stack.len();
        if n == 0 {
            None
        } else {
            Some(&self.stack[n - 1])
        }
    }

    /// Takes the next token, if there is one.
    pub fn next(&mut self) -> (token: Option<Token>)
        ensures
            match token {
                Some(t) => {
                    &&& old(self)@.len() > 0
                    &&& t@ == old(self)@[0]
                    &&& final(self)@ == old(self)@.drop_first()
                },
                None => old(self)@.len() == 0 && final(self)@ == old(self)@,
            },
    {
        self.stack.pop()
    }
}

} // verus!
