//! Parsing operations as values: what `try_op`, `choose_first`, `many`,
//! `many1` and `optional` run. An operation carries a specification of when
//! it succeeds, where it leaves the cursor, and which error it fails with;
//! its `attempt` is proved against that specification.

use vstd::prelude::*;
use crate::message::{eof_msg, mismatch_msg, unexpected_msg};
use crate::parser::{lemma_match_len_eq, lemma_match_len_props, match_len, Parser};
use crate::token::{Token, TokenPred};

verus! {

/// A parsing step over a stream `P`, producing an `O` on success.
///
/// The step's behaviour is a function of the input and the position alone:
/// `succeeds` says where it succeeds, `end_pos` where it leaves the cursor,
/// `result_ok` which results it may return, and `fail_err` which error it
/// fails with. An operation leaves the stream's checkpoint as it found it;
/// the combinators own the checkpoint. A `progressive` operation consumes at
/// least one token whenever it succeeds, which is what makes repetition
/// well-founded.
pub trait ParseOp<T: Token, E, P: Parser<T, E>, O> {
    /// Whether the operation succeeds on `t` at `pos`.
    spec fn succeeds(&self, t: Seq<T>, pos: int) -> bool;

    /// Where a success on `t` at `pos` leaves the cursor.
    spec fn end_pos(&self, t: Seq<T>, pos: int) -> int;

    /// Whether `v` is the result of a success on `t` at `pos`.
    spec fn result_ok(&self, t: Seq<T>, pos: int, v: O) -> bool;

    /// Whether `e` is the error of a failure on `t` at `pos`.
    spec fn fail_err(&self, t: Seq<T>, pos: int, e: E) -> bool;

    /// Whether every success consumes at least one token.
    spec fn progressive(&self) -> bool;

    /// A success never moves the cursor backwards or past the end, and a
    /// progressive success moves it strictly forwards.
    proof fn lemma_end_in_range(&self, t: Seq<T>, pos: int)
        requires
            0 <= pos <= t.len(),
        ensures
            self.succeeds(t, pos) ==> pos <= self.end_pos(t, pos) <= t.len(),
            (self.progressive() && self.succeeds(t, pos)) ==> pos < self.end_pos(t, pos),
    ;

    /// Run the operation once on `p`.
    fn attempt(&self, p: &mut P) -> (r: Result<O, E>)
        requires
            old(p).wf(),
        ensures
            final(p).wf(),
            final(p).tokens() == old(p).tokens(),
            final(p).saved() == old(p).saved(),
            r matches Ok(v) ==> self.succeeds(old(p).tokens(), old(p).cursor())
                && final(p).cursor() == self.end_pos(old(p).tokens(), old(p).cursor())
                && self.result_ok(old(p).tokens(), old(p).cursor(), v),
            r matches Err(e) ==> !self.succeeds(old(p).tokens(), old(p).cursor())
                && self.fail_err(old(p).tokens(), old(p).cursor(), e),
    ;
}

/// From one starting position, an operation has at most one maximal run:
/// two position sequences that each step through successes and end at a
/// failure are the same sequence.
pub proof fn lemma_run_unique<T: Token, E, P: Parser<T, E>, O, F: ParseOp<T, E, P, O>>(
    op: &F,
    t: Seq<T>,
    ps1: Seq<int>,
    ps2: Seq<int>,
)
    requires
        ps1.len() >= 1,
        ps2.len() >= 1,
        forall|i: int|
            0 <= i < ps1.len() - 1 ==> op.succeeds(t, #[trigger] ps1[i]) && op.end_pos(t, ps1[i])
                == ps1[i + 1],
        forall|i: int|
            0 <= i < ps2.len() - 1 ==> op.succeeds(t, #[trigger] ps2[i]) && op.end_pos(t, ps2[i])
                == ps2[i + 1],
        !op.succeeds(t, ps1.last()),
        !op.succeeds(t, ps2.last()),
        ps1[0] == ps2[0],
    ensures
        ps1 == ps2,
{
    if ps1.len() < ps2.len() {
        lemma_run_agree(op, t, ps1, ps2, ps1.len() - 1);
        assert(op.succeeds(t, ps2[ps1.len() - 1]));
        assert(false);
    }
    if ps2.len() < ps1.len() {
        lemma_run_agree(op, t, ps2, ps1, ps2.len() - 1);
        assert(op.succeeds(t, ps1[ps2.len() - 1]));
        assert(false);
    }
    assert forall|i: int| 0 <= i < ps1.len() implies ps1[i] == ps2[i] by {
        lemma_run_agree(op, t, ps1, ps2, i);
    }
    assert(ps1 =~= ps2);
}

proof fn lemma_run_agree<T: Token, E, P: Parser<T, E>, O, F: ParseOp<T, E, P, O>>(
    op: &F,
    t: Seq<T>,
    ps1: Seq<int>,
    ps2: Seq<int>,
    i: int,
)
    requires
        forall|k: int|
            0 <= k < ps1.len() - 1 ==> op.succeeds(t, #[trigger] ps1[k]) && op.end_pos(t, ps1[k])
                == ps1[k + 1],
        forall|k: int|
            0 <= k < ps2.len() - 1 ==> op.succeeds(t, #[trigger] ps2[k]) && op.end_pos(t, ps2[k])
                == ps2[k + 1],
        ps1[0] == ps2[0],
        0 <= i < ps1.len(),
        i < ps2.len(),
    ensures
        ps1[i] == ps2[i],
    decreases i,
{
    if i > 0 {
        lemma_run_agree(op, t, ps1, ps2, i - 1);
        assert(op.succeeds(t, ps1[i - 1]) && op.end_pos(t, ps1[i - 1]) == ps1[i]);
        assert(op.succeeds(t, ps2[i - 1]) && op.end_pos(t, ps2[i - 1]) == ps2[i]);
    }
}

/// The operation behind `atom`: one token, required to equal `expected`.
pub struct AtomOp<T> {
    /// The one token the operation accepts.
    pub expected: T,
}

impl<T: Token, E, P: Parser<T, E>> ParseOp<T, E, P, T> for AtomOp<T> {
    open spec fn succeeds(&self, t: Seq<T>, pos: int) -> bool {
        0 <= pos < t.len() && t[pos] == self.expected
    }

    open spec fn end_pos(&self, t: Seq<T>, pos: int) -> int {
        pos + 1
    }

    open spec fn result_ok(&self, t: Seq<T>, pos: int, v: T) -> bool {
        v == self.expected
    }

    open spec fn fail_err(&self, t: Seq<T>, pos: int, e: E) -> bool {
        if 0 <= pos < t.len() {
            P::is_error(e, mismatch_msg(t[pos].render_spec(), self.expected.render_spec()))
        } else {
            P::is_error(e, eof_msg())
        }
    }

    open spec fn progressive(&self) -> bool {
        true
    }

    proof fn lemma_end_in_range(&self, t: Seq<T>, pos: int) {
    }

    fn attempt(&self, p: &mut P) -> (r: Result<T, E>) {
        proof {
            p.lemma_wf();
        }
        p.atom(self.expected.duplicate())
    }
}

/// The operation behind `predicate`: one token, required to pass a test.
pub struct PredOp<C> {
    /// The test the consumed token must pass.
    pub pred: C,
}

impl<T: Token, E, P: Parser<T, E>, C: TokenPred<T>> ParseOp<T, E, P, T> for PredOp<C> {
    open spec fn succeeds(&self, t: Seq<T>, pos: int) -> bool {
        0 <= pos < t.len() && self.pred.holds(t[pos])
    }

    open spec fn end_pos(&self, t: Seq<T>, pos: int) -> int {
        pos + 1
    }

    open spec fn result_ok(&self, t: Seq<T>, pos: int, v: T) -> bool {
        0 <= pos < t.len() && v == t[pos]
    }

    open spec fn fail_err(&self, t: Seq<T>, pos: int, e: E) -> bool {
        if 0 <= pos < t.len() {
            P::is_error(e, unexpected_msg(t[pos].render_spec()))
        } else {
            P::is_error(e, eof_msg())
        }
    }

    open spec fn progressive(&self) -> bool {
        true
    }

    proof fn lemma_end_in_range(&self, t: Seq<T>, pos: int) {
    }

    fn attempt(&self, p: &mut P) -> (r: Result<T, E>) {
        proof {
            p.lemma_wf();
        }
        p.predicate(&self.pred)
    }
}

/// The operation behind `string`: a fixed sequence of expected tokens.
pub struct StringOp<T> {
    /// The tokens the operation matches, in order.
    pub expected: Vec<T>,
}

impl<T: Token, E, P: Parser<T, E>> ParseOp<T, E, P, Vec<T>> for StringOp<T> {
    open spec fn succeeds(&self, t: Seq<T>, pos: int) -> bool {
        0 <= pos && pos + self.expected@.len() <= t.len() && t.subrange(
            pos,
            pos + self.expected@.len(),
        ) == self.expected@
    }

    open spec fn end_pos(&self, t: Seq<T>, pos: int) -> int {
        pos + self.expected@.len()
    }

    open spec fn result_ok(&self, t: Seq<T>, pos: int, v: Vec<T>) -> bool {
        v@ == self.expected@
    }

    open spec fn fail_err(&self, t: Seq<T>, pos: int, e: E) -> bool {
        ({
            let j = match_len(t, pos, self.expected@);
            if pos + j < t.len() {
                P::is_error(
                    e,
                    mismatch_msg(t[pos + j].render_spec(), self.expected@[j].render_spec()),
                )
            } else {
                P::is_error(e, eof_msg())
            }
        })
    }

    open spec fn progressive(&self) -> bool {
        self.expected@.len() > 0
    }

    proof fn lemma_end_in_range(&self, t: Seq<T>, pos: int) {
    }

    fn attempt(&self, p: &mut P) -> (r: Result<Vec<T>, E>) {
        proof {
            p.lemma_wf();
        }
        let ghost t = p.tokens();
        let ghost c0 = p.cursor();
        let r = p.string(&self.expected);
        proof {
            let s = self.expected@;
            let j = match_len(t, c0, s);
            lemma_match_len_props(t, c0, s);
            if j == s.len() {
                assert(t.subrange(c0, c0 + s.len()) =~= s);
            } else {
                if c0 + s.len() <= t.len() && t.subrange(c0, c0 + s.len()) == s {
                    assert forall|k: int| 0 <= k < s.len() implies t[c0 + k] == s[k] by {
                        assert(t.subrange(c0, c0 + s.len())[k] == t[c0 + k]);
                    }
                    lemma_match_len_eq(t, c0, s, s.len() as int);
                }
            }
        }
        r
    }
}

} // verus!
