//! What a token type must offer: equality and a human-readable rendering.

use vstd::prelude::*;
use vstd::string::StringExecFns;
use crate::numeral::{dec_render, dec_seq, dec_string};

verus! {

/// A token handed out by a stream. A token supports an equality test and a
/// human-readable rendering for error text; both are pinned to the token's
/// mathematical value.
pub trait Token: Sized {
    /// The characters the token shows as in error text.
    spec fn render_spec(&self) -> Seq<char>;

    /// Render the token for error text.
    fn render(&self) -> (s: String)
        ensures
            s@ == self.render_spec(),
    ;

    /// Equality test; the result is exactly the tokens' equality.
    fn equals(&self, other: &Self) -> (b: bool)
        ensures
            b == (*self == *other),
    ;

    /// An owned copy of the token.
    fn duplicate(&self) -> (t: Self)
        ensures
            t == *self,
    ;
}

/// A test on tokens, handed to [`crate::parser::Parser::predicate`]. The
/// executable test must answer exactly as the specification-level `holds`.
pub trait TokenPred<T> {
    /// Which tokens the test accepts.
    spec fn holds(&self, t: T) -> bool;

    /// Run the test on one token.
    fn eval(&self, t: &T) -> (b: bool)
        ensures
            b == self.holds(*t),
    ;
}

impl Token for i32 {
    open spec fn render_spec(&self) -> Seq<char> {
        dec_render(*self as int)
    }

    fn render(&self) -> (s: String) {
        let v: i32 = *self;
        if v >= 0 {
            dec_string(v as u32)
        } else {
            let wide: i64 = v as i64;
            assert(1 <= -wide <= 0x8000_0000);
            let mag: u32 = (-wide) as u32;
            let mut s = "-".to_owned();
            let d = dec_string(mag);
            s.append(d.as_str());
            proof {
                reveal_strlit("-");
                assert(s@ =~= seq!['-'] + dec_seq(-(v as int)));
            }
            s
        }
    }

    fn equals(&self, other: &Self) -> (b: bool) {
        *self == *other
    }

    fn duplicate(&self) -> (t: Self) {
        *self
    }
}

} // verus!
