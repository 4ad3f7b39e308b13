//! A stream over an owned vector of tokens, with `String` errors: the
//! simplest conforming implementation of the combinator contract.

use vstd::prelude::*;
use crate::parser::Parser;
use crate::token::Token;

verus! {

/// A token stream backed by a vector. The cursor is an index into the
/// vector; the checkpoint is a second index, initially zero.
pub struct VecStream<T> {
    tokens: Vec<T>,
    cursor: usize,
    mark: usize,
}

impl<T: Token> VecStream<T> {
    /// A stream over `tokens`, with the cursor and the checkpoint at the
    /// start.
    pub fn new(tokens: Vec<T>) -> (s: Self)
        ensures
            s.wf(),
            s.tokens() == tokens@,
            s.cursor() == 0,
            s.saved() == 0,
    {
        VecStream { tokens, cursor: 0, mark: 0 }
    }

    /// The number of consumed tokens: the cursor's position.
    pub fn offset(&self) -> (n: usize)
        ensures
            n == self.cursor(),
    {
        self.cursor
    }
}

impl<T: Token> Parser<T, String> for VecStream<T> {
    closed spec fn tokens(&self) -> Seq<T> {
        self.tokens@
    }

    closed spec fn cursor(&self) -> int {
        self.cursor as int
    }

    closed spec fn saved(&self) -> int {
        self.mark as int
    }

    closed spec fn wf(&self) -> bool {
        self.cursor <= self.tokens@.len() && self.mark <= self.tokens@.len()
    }

    open spec fn is_error(e: String, msg: Seq<char>) -> bool {
        e@ == msg
    }

    proof fn lemma_wf(&self) {
    }

    fn preview(&self) -> (r: Option<&T>) {
        if self.cursor < self.tokens.len() {
            Some(&self.tokens[self.cursor])
        } else {
            None
        }
    }

    fn consume(&mut self) -> (r: Option<T>) {
        if self.cursor < self.tokens.len() {
            let tok = (&self.tokens[self.cursor]).duplicate();
            self.cursor = self.cursor + 1;
            Some(tok)
        } else {
            None
        }
    }

    /// A vector of tokens has no line structure, so every position reports
    /// as (0, 0).
    fn current_pos(&self) -> (i32, i32) {
        (0, 0)
    }

    fn error(&self, message: &str) -> (e: String) {
        message.to_owned()
    }

    fn save(&mut self) {
        self.mark = self.cursor;
    }

    fn load(&mut self) {
        self.cursor = self.mark;
    }
}

} // verus!
