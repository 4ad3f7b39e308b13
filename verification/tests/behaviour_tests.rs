use combinator::combine::Combinators;
use combinator::ops::{AtomOp, PredOp, StringOp};
use combinator::parser::Parser;
use combinator::stream::VecStream;
use combinator::token::TokenPred;

struct Positive;

impl TokenPred<i32> for Positive {
    fn holds(&self, t: i32) -> bool {
        t > 0
    }

    fn eval(&self, t: &i32) -> bool {
        *t > 0
    }
}

struct Below5;

impl TokenPred<i32> for Below5 {
    fn holds(&self, t: i32) -> bool {
        t < 5
    }

    fn eval(&self, t: &i32) -> bool {
        *t < 5
    }
}

#[test]
fn string_prefix_leaves_cursor_after_it() {
    let mut p = VecStream::new(vec![7, 8, 9, 10]);
    assert_eq!(p.string(&vec![7, 8]), Ok(vec![7, 8]));
    assert_eq!(p.offset(), 2);
}

#[test]
fn string_empty_expected_succeeds_in_place() {
    let mut p = VecStream::new(vec![7, 8]);
    assert_eq!(p.string(&vec![]), Ok(vec![]));
    assert_eq!(p.offset(), 0);
}

#[test]
fn string_mismatch_consumes_through_it() {
    let mut p = VecStream::new(vec![7, 9, 10]);
    assert_eq!(p.string(&vec![7, 8, 10]), Err(String::from("unexpected token 9, expected 8")));
    assert_eq!(p.offset(), 2);
}

#[test]
fn try_restores_cursor_on_failure() {
    let mut p = VecStream::new(vec![1, 2, 3]);
    assert_eq!(p.atom(1), Ok(1));
    assert!(p.try_op(&StringOp { expected: vec![2, 9] }).is_err());
    assert_eq!(p.offset(), 1);
}

#[test]
fn try_restores_cursor_at_eof() {
    let mut p: VecStream<i32> = VecStream::new(vec![]);
    assert!(p.try_op(&StringOp { expected: vec![1] }).is_err());
    assert_eq!(p.offset(), 0);
}

#[test]
fn choose_takes_first_success_and_cursor() {
    let mut p = VecStream::new(vec![4, 5, 6, 7, 8, 9, 10]);
    let r = p.choose_first(&vec![
        StringOp { expected: vec![1, 2, 3] },
        StringOp { expected: vec![4, 5, 6, 8] },
        StringOp { expected: vec![4, 5, 6] },
    ]);
    assert_eq!(r, Ok(vec![4, 5, 6]));
    assert_eq!(p.offset(), 3);
}

#[test]
fn choose_failure_rolls_back_cursor() {
    let mut p = VecStream::new(vec![5, 6, 7]);
    assert_eq!(p.atom(5), Ok(5));
    let r = p.choose_first(&vec![
        StringOp { expected: vec![1] },
        StringOp { expected: vec![2] },
    ]);
    assert_eq!(r, Err(String::from("unexpected token 6")));
    assert_eq!(p.offset(), 1);
}

#[test]
fn many_consumes_exactly_the_matching_run() {
    let mut p = VecStream::new(vec![1, 2, 3, 4]);
    assert_eq!(p.many(&PredOp { pred: Below5 }), Ok(vec![1, 2, 3, 4]));
    assert_eq!(p.offset(), 4);

    let mut q = VecStream::new(vec![1, 2, 7, 3]);
    assert_eq!(q.many(&PredOp { pred: Below5 }), Ok(vec![1, 2]));
    assert_eq!(q.offset(), 2);
}

#[test]
fn many_zero_matches_is_empty_success() {
    let mut p = VecStream::new(vec![9]);
    assert_eq!(p.many(&PredOp { pred: Below5 }), Ok(vec![]));
    assert_eq!(p.offset(), 0);
}

#[test]
fn many1_cursor_after_run() {
    let mut p = VecStream::new(vec![3, 4, 9]);
    assert_eq!(p.many1(&PredOp { pred: Below5 }), Ok(vec![3, 4]));
    assert_eq!(p.offset(), 2);
}

#[test]
fn optional_keeps_cursor_on_failure() {
    let mut p = VecStream::new(vec![1, 2]);
    p.optional(&AtomOp { expected: 9 });
    assert_eq!(p.offset(), 0);
}

#[test]
fn optional_advances_on_success() {
    let mut p = VecStream::new(vec![1, 2]);
    p.optional(&AtomOp { expected: 1 });
    assert_eq!(p.offset(), 1);
}

#[test]
fn negative_tokens_render_with_sign() {
    let mut p = VecStream::new(vec![-5]);
    assert_eq!(p.atom(-7), Err(String::from("unexpected token -5, expected -7")));
}

#[test]
fn extreme_token_renders_fully() {
    let mut p = VecStream::new(vec![i32::MIN]);
    assert_eq!(
        p.predicate(&Positive),
        Err(String::from("unexpected token -2147483648"))
    );
    let mut q = VecStream::new(vec![i32::MAX]);
    assert_eq!(q.atom(0), Err(String::from("unexpected token 2147483647, expected 0")));
}

#[test]
fn empty_input_next_reports_eof() {
    let mut p: VecStream<i32> = VecStream::new(vec![]);
    assert_eq!(p.next(), Err(String::from("unexpected eof")));
}
