//! The combinator contract: the capabilities a token stream must supply, and
//! the sequential parsing operations every conforming stream gains from
//! them. The backtracking operations stand in [`crate::combine`].

use vstd::prelude::*;
use crate::message::{eof_msg, mismatch_message, mismatch_msg, unexpected_message,
    unexpected_msg};
use crate::token::{Token, TokenPred};

verus! {

/// How far an expected sequence matches the stream: the number of leading
/// items of `s` that equal the items of `t` standing at `pos`.
pub open spec fn match_len<T>(t: Seq<T>, pos: int, s: Seq<T>) -> int
    decreases s.len(),
{
    if s.len() == 0 {
        0
    } else if 0 <= pos < t.len() && t[pos] == s[0] {
        1 + match_len(t, pos + 1, s.drop_first())
    } else {
        0
    }
}

/// `match_len` counts a run of equal items and stops only at the end of the
/// expected sequence, at the end of the stream, or at the first unequal item.
pub proof fn lemma_match_len_props<T>(t: Seq<T>, pos: int, s: Seq<T>)
    requires
        0 <= pos <= t.len(),
    ensures
        0 <= match_len(t, pos, s) <= s.len(),
        pos + match_len(t, pos, s) <= t.len(),
        forall|k: int| 0 <= k < match_len(t, pos, s) ==> t[pos + k] == s[k],
        match_len(t, pos, s) < s.len() ==> pos + match_len(t, pos, s) == t.len() || t[pos
            + match_len(t, pos, s)] != s[match_len(t, pos, s)],
    decreases s.len(),
{
    if s.len() == 0 {
    } else if pos < t.len() && t[pos] == s[0] {
        lemma_match_len_props(t, pos + 1, s.drop_first());
        assert forall|k: int| 0 <= k < match_len(t, pos, s) implies t[pos + k] == s[k] by {
            if k > 0 {
                assert(t[pos + 1 + (k - 1)] == s.drop_first()[k - 1]);
            }
        }
    } else {
    }
}

/// Where the items of `s` stand in `t` at `pos` up to an index `i` at which
/// `s` ends, the stream ends, or the items differ, the match stops exactly
/// at `i`.
pub proof fn lemma_match_len_eq<T>(t: Seq<T>, pos: int, s: Seq<T>, i: int)
    requires
        0 <= i <= s.len(),
        0 <= pos,
        pos + i <= t.len(),
        forall|k: int| 0 <= k < i ==> t[pos + k] == s[k],
        i == s.len() || pos + i == t.len() || t[pos + i] != s[i],
    ensures
        match_len(t, pos, s) == i,
    decreases i,
{
    if i == 0 {
    } else {
        assert(t[pos + 0] == s[0]);
        lemma_match_len_eq(t, pos + 1, s.drop_first(), i - 1);
    }
}

/// An expected sequence matches fully exactly where it stands as a prefix
/// of the input at `pos`. With the contract of [`Parser::string`], this says
/// that `string` succeeds on every prefix of the remaining input, leaving
/// the cursor right after it, and fails on every other sequence at its
/// first mismatching index.
pub proof fn lemma_match_len_full<T>(t: Seq<T>, pos: int, s: Seq<T>)
    requires
        0 <= pos <= t.len(),
    ensures
        match_len(t, pos, s) == s.len() <==> (pos + s.len() <= t.len() && t.subrange(
            pos,
            pos + s.len(),
        ) =~= s),
{
    lemma_match_len_props(t, pos, s);
    if match_len(t, pos, s) == s.len() {
        assert(t.subrange(pos, pos + s.len()) =~= s);
    }
    if pos + s.len() <= t.len() && t.subrange(pos, pos + s.len()) =~= s {
        assert forall|k: int| 0 <= k < s.len() implies t[pos + k] == s[k] by {
            assert(t.subrange(pos, pos + s.len())[k] == t[pos + k]);
        }
        lemma_match_len_eq(t, pos, s, s.len() as int);
    }
}

/// The capability set of a token stream, and the parsing operations derived
/// from it.
///
/// A stream exposes its mathematical state through `tokens` (the full input),
/// `cursor` (how much is consumed), and `saved` (the one checkpoint slot that
/// `save` and `load` manage). Every derived operation states over that model
/// exactly what it consumes, what it returns, and which error it constructs.
pub trait Parser<T: Token, E>: Sized {
    /// The input, as the ordered sequence of its tokens.
    spec fn tokens(&self) -> Seq<T>;

    /// The position of the next unconsumed token.
    spec fn cursor(&self) -> int;

    /// The checkpoint: the position the next `load` restores.
    spec fn saved(&self) -> int;

    /// The stream's internal invariant.
    spec fn wf(&self) -> bool;

    /// Which errors the stream's factory builds from a message.
    spec fn is_error(e: E, msg: Seq<char>) -> bool;

    /// A well-formed stream keeps its cursor and its checkpoint inside the
    /// input.
    proof fn lemma_wf(&self)
        ensures
            self.wf() ==> 0 <= self.cursor() <= self.tokens().len() && 0 <= self.saved()
                <= self.tokens().len(),
    ;

    /// The next token, not consumed; nothing at end of input. Idempotent,
    /// since the stream is untouched.
    fn preview(&self) -> (r: Option<&T>)
        requires
            self.wf(),
        ensures
            match r {
                Some(tok) => self.cursor() < self.tokens().len() && *tok == self.tokens()[self.cursor()],
                None => self.cursor() == self.tokens().len(),
            },
    ;

    /// Consume and return the next token; nothing at end of input.
    fn consume(&mut self) -> (r: Option<T>)
        requires
            old(self).wf(),
        ensures
            final(self).wf(),
            final(self).tokens() == old(self).tokens(),
            final(self).saved() == old(self).saved(),
            match r {
                Some(tok) => old(self).cursor() < old(self).tokens().len() && tok == old(self).tokens()[old(self).cursor()] && final(self).cursor() == old(self).cursor() + 1,
                None => old(self).cursor() == old(self).tokens().len() && final(self).cursor()
                    == old(self).cursor(),
            },
    ;

    /// A (line, column) pair for diagnostics; purely observational.
    fn current_pos(&self) -> (i32, i32);

    /// Construct an error from a message.
    fn error(&self, message: &str) -> (e: E)
        ensures
            Self::is_error(e, message@),
    ;

    /// Record the current position in the checkpoint, overwriting it.
    fn save(&mut self)
        requires
            old(self).wf(),
        ensures
            final(self).wf(),
            final(self).tokens() == old(self).tokens(),
            final(self).cursor() == old(self).cursor(),
            final(self).saved() == old(self).cursor(),
    ;

    /// Move the cursor back to the checkpoint.
    fn load(&mut self)
        requires
            old(self).wf(),
        ensures
            final(self).wf(),
            final(self).tokens() == old(self).tokens(),
            final(self).cursor() == old(self).saved(),
            final(self).saved() == old(self).saved(),
    ;

    /// Consume one token; fail at end of input.
    fn next(&mut self) -> (r: Result<T, E>)
        requires
            old(self).wf(),
        ensures
            final(self).wf(),
            final(self).tokens() == old(self).tokens(),
            final(self).saved() == old(self).saved(),
            match r {
                Ok(tok) => old(self).cursor() < old(self).tokens().len() && tok == old(self).tokens()[old(self).cursor()] && final(self).cursor() == old(self).cursor() + 1,
                Err(e) => old(self).cursor() == old(self).tokens().len() && final(self).cursor()
                    == old(self).cursor() && Self::is_error(e, eof_msg()),
            },
    {
        match self.consume() {
            Some(tok) => Ok(tok),
            None => Err(self.error("unexpected eof")),
        }
    }

    /// Consume one token and test it; fail on a rejected token, which stays
    /// consumed (no implicit backtrack).
    fn predicate<C: TokenPred<T>>(&mut self, pred: &C) -> (r: Result<T, E>)
        requires
            old(self).wf(),
        ensures
            final(self).wf(),
            final(self).tokens() == old(self).tokens(),
            final(self).saved() == old(self).saved(),
            old(self).cursor() == old(self).tokens().len() ==> (r matches Err(e)
                && Self::is_error(e, eof_msg()) && final(self).cursor() == old(self).cursor()),
            old(self).cursor() < old(self).tokens().len() ==> final(self).cursor() == old(self).cursor() + 1,
            (old(self).cursor() < old(self).tokens().len() && pred.holds(
                old(self).tokens()[old(self).cursor()],
            )) ==> (r matches Ok(tok) && tok == old(self).tokens()[old(self).cursor()]),
            (old(self).cursor() < old(self).tokens().len() && !pred.holds(
                old(self).tokens()[old(self).cursor()],
            )) ==> (r matches Err(e) && Self::is_error(
                e,
                unexpected_msg(old(self).tokens()[old(self).cursor()].render_spec()),
            )),
    {
        let tok = match self.next() {
            Ok(tok) => tok,
            Err(e) => {
                return Err(e);
            },
        };
        if pred.eval(&tok) {
            Ok(tok)
        } else {
            let m = unexpected_message(&tok);
            Err(self.error(m.as_str()))
        }
    }

    /// Consume one token and require it to equal `expected`; fail on any
    /// other token, which stays consumed (no implicit backtrack).
    fn atom(&mut self, expected: T) -> (r: Result<T, E>)
        requires
            old(self).wf(),
        ensures
            final(self).wf(),
            final(self).tokens() == old(self).tokens(),
            final(self).saved() == old(self).saved(),
            old(self).cursor() == old(self).tokens().len() ==> (r matches Err(e)
                && Self::is_error(e, eof_msg()) && final(self).cursor() == old(self).cursor()),
            old(self).cursor() < old(self).tokens().len() ==> final(self).cursor() == old(self).cursor() + 1,
            (old(self).cursor() < old(self).tokens().len() && old(self).tokens()[old(self).cursor()] == expected) ==> (r matches Ok(tok) && tok == expected),
            (old(self).cursor() < old(self).tokens().len() && old(self).tokens()[old(self).cursor()] != expected) ==> (r matches Err(e) && Self::is_error(
                e,
                mismatch_msg(
                    old(self).tokens()[old(self).cursor()].render_spec(),
                    expected.render_spec(),
                ),
            )),
    {
        let tok = match self.next() {
            Ok(tok) => tok,
            Err(e) => {
                return Err(e);
            },
        };
        if tok.equals(&expected) {
            Ok(tok)
        } else {
            let m = mismatch_message(&tok, &expected);
            Err(self.error(m.as_str()))
        }
    }

    /// Consume a fixed sequence of expected tokens, one at a time through
    /// `atom`. The match stops at the first unequal token or at the end of
    /// the input, with that `atom`'s error and no backtrack; a full match
    /// returns the consumed tokens.
    fn string(&mut self, s: &Vec<T>) -> (r: Result<Vec<T>, E>)
        requires
            old(self).wf(),
        ensures
            final(self).wf(),
            final(self).tokens() == old(self).tokens(),
            final(self).saved() == old(self).saved(),
            ({
                let t = old(self).tokens();
                let c0 = old(self).cursor();
                let j = match_len(t, c0, s@);
                &&& (j == s@.len() ==> (r matches Ok(v) && v@ == s@ && final(self).cursor() == c0
                    + j))
                &&& ((j < s@.len() && c0 + j < t.len()) ==> (r matches Err(e)
                    && final(self).cursor() == c0 + j + 1 && Self::is_error(
                    e,
                    mismatch_msg(t[c0 + j].render_spec(), s@[j].render_spec()),
                )))
                &&& ((j < s@.len() && c0 + j == t.len()) ==> (r matches Err(e)
                    && final(self).cursor() == c0 + j && Self::is_error(e, eof_msg())))
            }),
    {
        proof {
            self.lemma_wf();
        }
        let ghost t = self.tokens();
        let ghost c0 = self.cursor();
        let mut res: Vec<T> = Vec::new();
        let mut i: usize = 0;
        while i < s.len()
            invariant
                self.wf(),
                t == old(self).tokens(),
                c0 == old(self).cursor(),
                self.tokens() == t,
                self.saved() == old(self).saved(),
                0 <= c0 <= t.len(),
                i <= s@.len(),
                c0 + i <= t.len(),
                self.cursor() == c0 + i,
                res@ == s@.subrange(0, i as int),
                forall|k: int| 0 <= k < i ==> t[c0 + k] == s@[k],
            decreases s@.len() - i,
        {
            let expected = (&s[i]).duplicate();
            match self.atom(expected) {
                Ok(tok) => {
                    res.push(tok);
                    proof {
                        assert(res@ =~= s@.subrange(0, i + 1));
                    }
                    i = i + 1;
                },
                Err(e) => {
                    proof {
                        lemma_match_len_eq(t, c0, s@, i as int);
                    }
                    return Err(e);
                },
            }
        }
        proof {
            lemma_match_len_eq(t, c0, s@, i as int);
            assert(res@ =~= s@);
        }
        Ok(res)
    }

}

} // verus!
