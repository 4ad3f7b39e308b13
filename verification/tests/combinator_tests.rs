use combinator::combine::Combinators;
use combinator::ops::{AtomOp, PredOp, StringOp};
use combinator::parser::Parser;
use combinator::stream::VecStream;
use combinator::token::TokenPred;

struct Even;

impl TokenPred<i32> for Even {
    fn holds(&self, t: i32) -> bool {
        t % 2 == 0
    }

    fn eval(&self, t: &i32) -> bool {
        *t % 2 == 0
    }
}

struct Lt5;

impl TokenPred<i32> for Lt5 {
    fn holds(&self, t: i32) -> bool {
        t < 5
    }

    fn eval(&self, t: &i32) -> bool {
        *t < 5
    }
}

fn err<T>(m: &str) -> Result<T, String> {
    Err(String::from(m))
}

#[test]
fn next_success() {
    let mut p = VecStream::new(vec![1, 2, 3]);
    assert_eq!(p.next(), Ok(1));
    assert_eq!(p.next(), Ok(2));
    assert_eq!(p.next(), Ok(3));
}

#[test]
fn next_fail_empty() {
    let mut p: VecStream<i32> = VecStream::new(vec![]);
    assert_eq!(p.next(), err("unexpected eof"));
}

#[test]
fn predicate_success() {
    let mut p = VecStream::new(vec![2, 4, 6]);
    assert_eq!(p.predicate(&Even), Ok(2));
    assert_eq!(p.predicate(&Even), Ok(4));
    assert_eq!(p.predicate(&Even), Ok(6));
}

#[test]
fn predicate_fail_empty() {
    let mut p: VecStream<i32> = VecStream::new(vec![]);
    assert_eq!(p.predicate(&Even), err("unexpected eof"));
}

#[test]
fn predicate_fail_not_satisfy() {
    let mut p = VecStream::new(vec![3, 5, 7]);
    assert_eq!(p.predicate(&Even), err("unexpected token 3"));
}

#[test]
fn atom_success() {
    let mut p = VecStream::new(vec![2, 4, 6]);
    assert_eq!(p.atom(2), Ok(2));
    assert_eq!(p.atom(4), Ok(4));
    assert_eq!(p.atom(6), Ok(6));
}

#[test]
fn atom_fail_empty() {
    let mut p: VecStream<i32> = VecStream::new(vec![]);
    assert_eq!(p.atom(2), err("unexpected eof"));
}

#[test]
fn atom_fail_not_expected() {
    let mut p = VecStream::new(vec![3, 5, 7]);
    assert_eq!(p.atom(3), Ok(3));
    assert_eq!(p.atom(4), err("unexpected token 5, expected 4"));
}

#[test]
fn string_success() {
    let mut p = VecStream::new(vec![2, 4, 6]);
    assert_eq!(p.string(&vec![2, 4, 6]), Ok(vec![2, 4, 6]));
}

#[test]
fn string_fail_empty() {
    let mut p: VecStream<i32> = VecStream::new(vec![]);
    assert_eq!(p.string(&vec![2, 4, 6]), err("unexpected eof"));
}

#[test]
fn string_fail_not_expected() {
    let mut p = VecStream::new(vec![2, 5, 6]);
    assert_eq!(p.string(&vec![2, 4, 6]), err("unexpected token 5, expected 4"));
}

#[test]
fn try_success() {
    let mut p = VecStream::new(vec![2, 4, 6]);
    assert_eq!(p.try_op(&StringOp { expected: vec![2, 4, 6] }), Ok(vec![2, 4, 6]));
}

#[test]
fn try_fail_recover() {
    let mut p = VecStream::new(vec![2, 4, 6]);
    assert_eq!(
        p.try_op(&StringOp { expected: vec![2, 4, 7] }),
        err("unexpected token 6, expected 7")
    );
    assert_eq!(p.try_op(&StringOp { expected: vec![2, 4, 6] }), Ok(vec![2, 4, 6]));
}

#[test]
fn choose_success() {
    let mut p = VecStream::new(vec![1, 2, 3, 4, 5, 6, 7, 8, 9, 10]);
    assert_eq!(
        p.choose_first(&vec![
            StringOp { expected: vec![1, 2, 3] },
            StringOp { expected: vec![4, 5, 6, 7] },
            StringOp { expected: vec![4, 5, 6] },
        ]),
        Ok(vec![1, 2, 3])
    );
}

#[test]
fn choose_success_with_recover() {
    let mut p = VecStream::new(vec![4, 5, 6, 7, 8, 9, 10]);
    assert_eq!(
        p.choose_first(&vec![
            StringOp { expected: vec![1, 2, 3] },
            StringOp { expected: vec![4, 5, 6, 8] },
            StringOp { expected: vec![4, 5, 6] },
        ]),
        Ok(vec![4, 5, 6])
    );
}

#[test]
fn choose_fail_no_match() {
    let mut p = VecStream::new(vec![5, 6, 7, 8, 9, 10]);
    assert_eq!(
        p.choose_first(&vec![
            StringOp { expected: vec![1, 2, 3] },
            StringOp { expected: vec![4, 5, 6, 8] },
            StringOp { expected: vec![4, 5, 6] },
        ]),
        err("unexpected token 5")
    );
}

#[test]
fn choose_fail_empty() {
    let mut p: VecStream<i32> = VecStream::new(vec![]);
    assert_eq!(
        p.choose_first(&vec![
            StringOp { expected: vec![1, 2, 3] },
            StringOp { expected: vec![4, 5, 6, 8] },
            StringOp { expected: vec![4, 5, 6] },
        ]),
        err("unexpected eof")
    );
}

#[test]
fn many_success() {
    let lt5 = PredOp { pred: Lt5 };

    assert_eq!(VecStream::new(vec![1, 2, 3, 4]).many(&lt5), Ok(vec![1, 2, 3, 4]));
    assert_eq!(
        VecStream::new(vec![1, 2, 3, 4, 5, 6, 7, 8]).many(&lt5),
        Ok(vec![1, 2, 3, 4])
    );
    assert_eq!(VecStream::new(vec![4, 5, 6, 7, 8]).many(&lt5), Ok(vec![4]));
    assert_eq!(VecStream::new(vec![5, 6, 7, 8]).many(&lt5), Ok(vec![]));
}

#[test]
fn many1_success() {
    let lt5 = PredOp { pred: Lt5 };

    assert_eq!(VecStream::new(vec![1, 2, 3, 4]).many1(&lt5), Ok(vec![1, 2, 3, 4]));
    assert_eq!(
        VecStream::new(vec![1, 2, 3, 4, 5, 6, 7, 8]).many1(&lt5),
        Ok(vec![1, 2, 3, 4])
    );
    assert_eq!(VecStream::new(vec![4, 5, 6, 7, 8]).many1(&lt5), Ok(vec![4]));
}

#[test]
fn many1_fail() {
    let lt5 = PredOp { pred: Lt5 };

    assert_eq!(VecStream::new(vec![5, 6, 7, 8]).many1(&lt5), err("unexpected token 5"));
}

#[test]
fn optional_success() {
    let mut p = VecStream::new(vec![1, 2, 3, 4, 5]);
    p.optional(&AtomOp { expected: 1 });
    assert_eq!(p.string(&vec![2, 3, 4]), Ok(vec![2, 3, 4]));
}

#[test]
fn optional_success_without_matching() {
    let mut p = VecStream::new(vec![1, 2, 3, 4, 5]);
    p.optional(&AtomOp { expected: 2 });
    assert_eq!(p.string(&vec![1, 2, 3]), Ok(vec![1, 2, 3]));
}
