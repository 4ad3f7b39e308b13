//! The backtracking operations: running a [`ParseOp`] under a checkpoint,
//! ordered alternation, repetition, and an optional attempt. Every stream
//! that implements [`Parser`] gains them through the blanket implementation.

use vstd::prelude::*;
use crate::message::{eof_message, here_msg, unexpected_message};
use crate::ops::ParseOp;
use crate::parser::Parser;
use crate::token::Token;

verus! {

/// The operations a stream gains from the checkpoint capability. They are
/// implemented once, for every [`Parser`]; a stream type only supplies the
/// capability set.
pub trait Combinators<T: Token, E>: Parser<T, E> {
    /// Run `op` after recording a checkpoint. On failure the checkpoint is
    /// restored before the error propagates, so the cursor stands exactly
    /// where it stood before the call; a success leaves the cursor advanced
    /// and the checkpoint overwritten.
    fn try_op<O, F: ParseOp<T, E, Self, O>>(&mut self, op: &F) -> (r: Result<O, E>)
        requires
            old(self).wf(),
        ensures
            final(self).wf(),
            final(self).tokens() == old(self).tokens(),
            final(self).saved() == old(self).cursor(),
            r matches Ok(v) ==> op.succeeds(old(self).tokens(), old(self).cursor())
                && final(self).cursor() == op.end_pos(old(self).tokens(), old(self).cursor())
                && op.result_ok(old(self).tokens(), old(self).cursor(), v),
            r matches Err(e) ==> !op.succeeds(old(self).tokens(), old(self).cursor())
                && final(self).cursor() == old(self).cursor() && op.fail_err(
                old(self).tokens(),
                old(self).cursor(),
                e,
            ),
    ;

    /// Try each candidate in order, with full rollback between attempts,
    /// and return the first success. Where every candidate fails, the
    /// cursor is back at the starting position and the error describes the
    /// token standing there (or the end of the input), not any candidate's
    /// own failure.
    fn choose_first<O, F: ParseOp<T, E, Self, O>>(&mut self, ops: &Vec<F>) -> (r: Result<O, E>)
        requires
            old(self).wf(),
        ensures
            final(self).wf(),
            final(self).tokens() == old(self).tokens(),
            ops@.len() == 0 ==> final(self).saved() == old(self).saved(),
            ops@.len() > 0 ==> final(self).saved() == old(self).cursor(),
            r matches Ok(v) ==> (exists|i: int|
                0 <= i < ops@.len() && (#[trigger] ops@[i].succeeds(
                    old(self).tokens(),
                    old(self).cursor(),
                )) && (forall|j: int|
                    0 <= j < i ==> !(#[trigger] ops@[j].succeeds(
                        old(self).tokens(),
                        old(self).cursor(),
                    ))) && final(self).cursor() == ops@[i].end_pos(
                    old(self).tokens(),
                    old(self).cursor(),
                ) && ops@[i].result_ok(old(self).tokens(), old(self).cursor(), v)),
            r matches Err(e) ==> (forall|i: int|
                0 <= i < ops@.len() ==> !(#[trigger] ops@[i].succeeds(
                    old(self).tokens(),
                    old(self).cursor(),
                ))) && final(self).cursor() == old(self).cursor() && Self::is_error(
                e,
                here_msg(old(self).tokens(), old(self).cursor()),
            ),
    ;

    /// Apply `op` repeatedly, each attempt under its own checkpoint, until
    /// an attempt fails; that failure is rolled back and swallowed. The
    /// successful results are collected in order; zero successes yield an
    /// empty result, not a failure. The positions the run steps through are
    /// unique (see [`crate::ops::lemma_run_unique`]), so the number of
    /// results is determined by the input and the operation.
    fn many<O, F: ParseOp<T, E, Self, O>>(&mut self, op: &F) -> (r: Result<Vec<O>, E>)
        requires
            old(self).wf(),
            op.progressive(),
        ensures
            final(self).wf(),
            final(self).tokens() == old(self).tokens(),
            final(self).saved() == final(self).cursor(),
            r matches Ok(v) && (exists|ps: Seq<int>|
                #![auto]
                ps.len() == v@.len() + 1 && ps[0] == old(self).cursor() && final(self).cursor()
                    == ps.last() && !op.succeeds(old(self).tokens(), ps.last()) && (forall|i: int|
                    0 <= i < ps.len() - 1 ==> op.succeeds(old(self).tokens(), #[trigger] ps[i])
                        && op.end_pos(old(self).tokens(), ps[i]) == ps[i + 1] && op.result_ok(
                        old(self).tokens(),
                        ps[i],
                        v@[i],
                    ))),
    ;

    /// As `many`, but the first application runs unwrapped: where it fails,
    /// its failure propagates untouched, with no rollback of what it
    /// consumed. At least one success is required.
    fn many1<O, F: ParseOp<T, E, Self, O>>(&mut self, op: &F) -> (r: Result<Vec<O>, E>)
        requires
            old(self).wf(),
            op.progressive(),
        ensures
            final(self).wf(),
            final(self).tokens() == old(self).tokens(),
            r matches Err(e) ==> !op.succeeds(old(self).tokens(), old(self).cursor())
                && op.fail_err(old(self).tokens(), old(self).cursor(), e) && final(self).saved()
                == old(self).saved(),
            r matches Ok(v) ==> final(self).saved() == final(self).cursor() && (exists|ps: Seq<int>|
                #![auto]
                ps.len() == v@.len() + 1 && ps.len() >= 2 && ps[0] == old(self).cursor()
                    && final(self).cursor() == ps.last() && !op.succeeds(
                    old(self).tokens(),
                    ps.last(),
                ) && (forall|i: int|
                    0 <= i < ps.len() - 1 ==> op.succeeds(old(self).tokens(), #[trigger] ps[i])
                        && op.end_pos(old(self).tokens(), ps[i]) == ps[i + 1] && op.result_ok(
                        old(self).tokens(),
                        ps[i],
                        v@[i],
                    ))),
    ;

    /// Apply `op` under a checkpoint and discard the outcome: a success
    /// leaves its tokens consumed, a failure is rolled back and swallowed.
    /// The caller sees neither a result nor an error.
    fn optional<O, F: ParseOp<T, E, Self, O>>(&mut self, op: &F)
        requires
            old(self).wf(),
        ensures
            final(self).wf(),
            final(self).tokens() == old(self).tokens(),
            final(self).saved() == old(self).cursor(),
            op.succeeds(old(self).tokens(), old(self).cursor()) ==> final(self).cursor()
                == op.end_pos(old(self).tokens(), old(self).cursor()),
            !op.succeeds(old(self).tokens(), old(self).cursor()) ==> final(self).cursor() == old(self).cursor(),
    ;
}

impl<T: Token, E, P: Parser<T, E>> Combinators<T, E> for P {
    fn try_op<O, F: ParseOp<T, E, Self, O>>(&mut self, op: &F) -> (r: Result<O, E>) {
        self.save();
        match op.attempt(self) {
            Ok(v) => Ok(v),
            Err(e) => {
                self.load();
                Err(e)
            },
        }
    }

    fn choose_first<O, F: ParseOp<T, E, Self, O>>(&mut self, ops: &Vec<F>) -> (r: Result<O, E>) {
        proof {
            self.lemma_wf();
        }
        let ghost t = self.tokens();
        let ghost c0 = self.cursor();
        let mut i: usize = 0;
        while i < ops.len()
            invariant
                self.wf(),
                t == old(self).tokens(),
                c0 == old(self).cursor(),
                self.tokens() == t,
                self.cursor() == c0,
                i <= ops@.len(),
                i == 0 ==> self.saved() == old(self).saved(),
                i > 0 ==> self.saved() == c0,
                forall|j: int| 0 <= j < i ==> !(#[trigger] ops@[j].succeeds(t, c0)),
            decreases ops@.len() - i,
        {
            match self.try_op(&ops[i]) {
                Ok(v) => {
                    return Ok(v);
                },
                Err(_) => {},
            }
            i = i + 1;
        }
        let m: String = match self.preview() {
            Some(tok) => unexpected_message(tok),
            None => eof_message(),
        };
        Err(self.error(m.as_str()))
    }

    fn many<O, F: ParseOp<T, E, Self, O>>(&mut self, op: &F) -> (r: Result<Vec<O>, E>) {
        proof {
            self.lemma_wf();
        }
        let ghost t = self.tokens();
        let ghost c0 = self.cursor();
        let mut res: Vec<O> = Vec::new();
        let ghost mut ps: Seq<int> = seq![c0];
        let mut done: bool = false;
        while !done
            invariant
                self.wf(),
                op.progressive(),
                t == old(self).tokens(),
                c0 == old(self).cursor(),
                self.tokens() == t,
                ps.len() == res@.len() + 1,
                ps[0] == c0,
                ps.last() == self.cursor(),
                forall|i: int| 0 <= i < ps.len() ==> 0 <= #[trigger] ps[i] <= t.len(),
                forall|i: int|
                    0 <= i < ps.len() - 1 ==> op.succeeds(t, #[trigger] ps[i]) && op.end_pos(
                        t,
                        ps[i],
                    ) == ps[i + 1] && op.result_ok(t, ps[i], res@[i]),
                done ==> !op.succeeds(t, self.cursor()),
                done ==> self.saved() == self.cursor(),
            decreases t.len() - self.cursor() + (if done {
                0int
            } else {
                1int
            }),
        {
            let ghost at = self.cursor();
            match self.try_op(op) {
                Ok(v) => {
                    res.push(v);
                    proof {
                        op.lemma_end_in_range(t, at);
                        ps = ps.push(self.cursor());
                    }
                },
                Err(_) => {
                    done = true;
                },
            }
        }
        Ok(res)
    }

    fn many1<O, F: ParseOp<T, E, Self, O>>(&mut self, op: &F) -> (r: Result<Vec<O>, E>) {
        proof {
            self.lemma_wf();
        }
        let ghost t = self.tokens();
        let ghost c0 = self.cursor();
        let first = match op.attempt(self) {
            Ok(v) => v,
            Err(e) => {
                return Err(e);
            },
        };
        let mut res: Vec<O> = Vec::new();
        res.push(first);
        proof {
            op.lemma_end_in_range(t, c0);
        }
        let ghost mut ps: Seq<int> = seq![c0, self.cursor()];
        let mut done: bool = false;
        while !done
            invariant
                self.wf(),
                op.progressive(),
                t == old(self).tokens(),
                c0 == old(self).cursor(),
                self.tokens() == t,
                ps.len() >= 2,
                ps.len() == res@.len() + 1,
                ps[0] == c0,
                ps.last() == self.cursor(),
                forall|i: int| 0 <= i < ps.len() ==> 0 <= #[trigger] ps[i] <= t.len(),
                forall|i: int|
                    0 <= i < ps.len() - 1 ==> op.succeeds(t, #[trigger] ps[i]) && op.end_pos(
                        t,
                        ps[i],
                    ) == ps[i + 1] && op.result_ok(t, ps[i], res@[i]),
                done ==> !op.succeeds(t, self.cursor()),
                done ==> self.saved() == self.cursor(),
            decreases t.len() - self.cursor() + (if done {
                0int
            } else {
                1int
            }),
        {
            let ghost at = self.cursor();
            match self.try_op(op) {
                Ok(v) => {
                    res.push(v);
                    proof {
                        op.lemma_end_in_range(t, at);
                        ps = ps.push(self.cursor());
                    }
                },
                Err(_) => {
                    done = true;
                },
            }
        }
        Ok(res)
    }

    fn optional<O, F: ParseOp<T, E, Self, O>>(&mut self, op: &F) {
        match self.try_op(op) {
            Ok(_) => (),
            Err(_) => (),
        }
    }
}

} // verus!
