//! The token source the engine consumes.
//!
//! The parser wants to peek at the next token and advance past it; the
//! `Lexer` trait is that capability, modelled as a fixed stream of
//! tokens together with a cursor. A stream adapter could implement it;
//! `LexerVec` is a simple wrapper around a vector, provided as a
//! reference implementation.

use vstd::prelude::*;
use crate::token::Token;

verus! {

/// A peek/advance token source. Its mathematical model is the full
/// token stream plus the index of the next not-yet-consumed token;
/// peeking never moves the index, advancing moves it forward by one.
pub trait Lexer<T: Token>: Sized {
    /// The whole token stream this source ranges over.
    spec fn stream(self) -> Seq<T>;

    /// The index of the next not-yet-consumed token.
    spec fn pos(self) -> int;

    /// Implementation-specific well-formedness.
    spec fn inv(self) -> bool;

    /// A well-formed source keeps its cursor inside the stream.
    proof fn lemma_inv_bounds(&self)
        requires
            self.inv(),
        ensures
            0 <= self.pos() <= self.stream().len(),
    ;

    /// Returns the next token without consuming it; `None` once the
    /// stream is exhausted. Callers should use this before every
    /// `next_token` call.
    fn peek(&self) -> (r: Option<T>)
        requires
            self.inv(),
        ensures
            r == if self.pos() < self.stream().len() {
                Some(self.stream()[self.pos()])
            } else {
                None::<T>
            },
    ;

    /// Moves the source forward to the next token, returning the token
    /// moved past. Must not be called when `peek` would be empty.
    fn next_token(&mut self) -> (t: T)
        requires
            old(self).inv(),
            old(self).pos() < old(self).stream().len(),
        ensures
            final(self).inv(),
            final(self).stream() == old(self).stream(),
            final(self).pos() == old(self).pos() + 1,
            t == old(self).stream()[old(self).pos()],
    ;

    /// Moves the source backward to the previous token, returning the
    /// token the cursor stood on.
    fn prev_token(&mut self) -> (t: T)
        requires
            old(self).inv(),
            0 < old(self).pos(),
            old(self).pos() < old(self).stream().len(),
        ensures
            final(self).inv(),
            final(self).stream() == old(self).stream(),
            final(self).pos() == old(self).pos() - 1,
            t == old(self).stream()[old(self).pos()],
    ;
}

/// A `Lexer` over a vector of tokens: the whole input is known up
/// front and an index walks across it.
#[derive(Clone, Debug, Eq, Hash, Ord, PartialEq, PartialOrd)]
pub struct LexerVec<T> {
    inner: Vec<T>,
    index: usize,
}

impl<T: Token> LexerVec<T> {
    /// Wraps a vector of tokens as a token source positioned at its
    /// first token.
    pub fn new(tokens: Vec<T>) -> (l: LexerVec<T>)
        ensures
            l.inv(),
            l.stream() == tokens@,
            l.pos() == 0,
    {
        LexerVec { inner: tokens, index: 0 }
    }
}

impl<T: Token> Lexer<T> for LexerVec<T> {
    closed spec fn stream(self) -> Seq<T> {
        self.inner@
    }

    closed spec fn pos(self) -> int {
        self.index as int
    }

    closed spec fn inv(self) -> bool {
        self.index <= self.inner@.len()
    }

    proof fn lemma_inv_bounds(&self) {
    }

    fn peek(&self) -> (r: Option<T>) {
        if self.index < self.inner.len() {
            Some(self.inner[self.index].clone_token())
        } else {
            None
        }
    }

    fn next_token(&mut self) -> (t: T) {
        let t = self.inner[self.index].clone_token();
        proof {
            // The index stays under the vector's length, which itself
            // fits in usize: the increment cannot overflow.
            assert(self.inner.len() == self.inner@.len());
        }
        self.index = self.index + 1;
        t
    }

    fn prev_token(&mut self) -> (t: T) {
        let t = self.inner[self.index].clone_token();
        self.index = self.index - 1;
        t
    }
}

} // verus!
