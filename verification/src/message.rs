//! The error messages the combinators hand to a stream's error factory.

use vstd::prelude::*;
use vstd::string::StringExecFns;
use crate::token::Token;

verus! {

/// The message used where a token was required and the stream was exhausted.
pub open spec fn eof_msg() -> Seq<char> {
    "unexpected eof"@
}

/// The message used where a token was present but rejected.
pub open spec fn unexpected_msg(tok: Seq<char>) -> Seq<char> {
    "unexpected token "@ + tok
}

/// The message used where a token was present but another one was required.
pub open spec fn mismatch_msg(actual: Seq<char>, expected: Seq<char>) -> Seq<char> {
    "unexpected token "@ + actual + ", expected "@ + expected
}

/// The message that describes the stream at a position: the token standing
/// there, or the end of the input.
pub open spec fn here_msg<T: Token>(t: Seq<T>, pos: int) -> Seq<char> {
    if 0 <= pos < t.len() {
        unexpected_msg(t[pos].render_spec())
    } else {
        eof_msg()
    }
}

/// Build the end-of-input message.
pub fn eof_message() -> (s: String)
    ensures
        s@ == eof_msg(),
{
    "unexpected eof".to_owned()
}

/// Build the message for a rejected token.
pub fn unexpected_message<T: Token>(tok: &T) -> (s: String)
    ensures
        s@ == unexpected_msg(tok.render_spec()),
{
    let mut s = "unexpected token ".to_owned();
    let r = tok.render();
    s.append(r.as_str());
    s
}

/// Build the message for a token that is not the required one.
pub fn mismatch_message<T: Token>(actual: &T, expected: &T) -> (s: String)
    ensures
        s@ == mismatch_msg(actual.render_spec(), expected.render_spec()),
{
    let mut s = "unexpected token ".to_owned();
    let a = actual.render();
    s.append(a.as_str());
    s.append(", expected ");
    let e = expected.render();
    s.append(e.as_str());
    s
}

} // verus!
