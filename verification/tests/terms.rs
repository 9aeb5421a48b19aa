use structural_types::refinement::oracle::{Lawful, Oracle, Plain};
use structural_types::refinement::term::{BinOp, Free, Term};

struct Yes;

impl Oracle for Yes {
    fn entails(&self, _facts: vstd::seq::Seq<Term>, _goal: Term) -> bool {
        true
    }

    fn prove(&self, _facts: &Vec<Term>, _goal: &Term) -> bool {
        true
    }
}

#[test]
fn eval_wraps_sums() {
    assert_eq!(BinOp::Add.eval(i32::MAX, 1), i32::MIN);
    assert_eq!(BinOp::Sub.eval(3, 5), -2);
    assert_eq!(BinOp::Mul.eval(7, 6), 42);
}

#[test]
fn eval_is_signed() {
    assert_eq!(BinOp::Div.eval(-1, 2), 0);
    assert_eq!(BinOp::Div.eval(-7, 2), -3);
    assert_eq!(BinOp::Div.eval(7, -2), -3);
    assert_eq!(BinOp::Div.eval(-7, -2), 3);
    assert_eq!(BinOp::Div.eval(i32::MIN, 2), -1073741824);
    assert_eq!(BinOp::Rem.eval(7, 4), 3);
    assert_eq!(BinOp::Rem.eval(-7, 4), -3);
    assert_eq!(BinOp::Rem.eval(7, -4), 3);
    assert_eq!(BinOp::Less.eval(1, -1), 0);
    assert_eq!(BinOp::Less.eval(-1, 0), 1);
    assert_eq!(BinOp::LessEq.eval(-1, 1), 1);
    assert_eq!(BinOp::LessEq.eval(0, -1), 0);
}

#[test]
fn terms_stand_for_naturals() {
    assert_eq!(BinOp::Div.reduce(-1, 2), i32::MAX);
    assert_eq!(BinOp::Rem.reduce(-1, 16), 15);
    assert_eq!(BinOp::Less.reduce(1, -1), 1);
    assert_eq!(BinOp::Less.reduce(-1, 0), 0);
    assert_eq!(BinOp::LessEq.reduce(-1, 1), 0);
    assert_eq!(BinOp::MulSafe.reduce(65536, 65536), 0);
    assert_eq!(BinOp::MulSafe.reduce(65535, 65537), 1);
    assert_eq!(BinOp::MulSafe.reduce(-1, 2), 0);
    assert_eq!(BinOp::MulSafe.reduce(0, -1), 1);
    assert_eq!(BinOp::Add.reduce(i32::MAX, 1), i32::MIN);
    assert_eq!(BinOp::And.reduce(6, 3), 2);
}

#[test]
fn plain_grants_what_is_evident() {
    let x = Term::UVar(0, 32);
    let y = Term::UVar(1, 32);
    assert!(Plain.prove(&vec![], &x.eq(&x)));
    assert!(!Plain.prove(&vec![], &x.eq(&y)));
    assert!(Plain.prove(&vec![x.eq(&y)], &x.eq(&y)));
    assert!(Plain.prove(&vec![], &BinOp::Less.apply(&Term::lit(1, 32), &Term::lit(4, 32))));
    assert!(Yes.prove(&vec![], &x.eq(&y)));
}

#[test]
fn bool_not_is_one_minus() {
    let f: Free<Term> = Free::Just(0, 32).bool_not();
    assert_eq!(f.make_term().fold(), Some(1));
}

struct No;

impl Oracle for No {
    fn entails(&self, _facts: vstd::seq::Seq<Term>, _goal: Term) -> bool {
        false
    }

    fn prove(&self, _facts: &Vec<Term>, _goal: &Term) -> bool {
        false
    }
}

#[test]
fn a_lawful_oracle_grants_what_is_plain_to_see() {
    let x = Term::UVar(0, 32);
    let y = Term::UVar(1, 32);
    let less = BinOp::Less.apply(&x, &y);
    assert!(!No.prove(&vec![], &x.eq(&x)));
    assert!(Lawful(No).prove(&vec![], &x.eq(&x)));
    assert!(!Lawful(No).prove(&vec![], &x.eq(&y)));
    assert!(!Lawful(No).prove(&vec![], &x.ule(&x)));
    assert!(Lawful(No).prove(&vec![x.eq(&y), less.clone()], &less));
    assert!(!Lawful(No).prove(&vec![x.eq(&y)], &less));
    assert!(Lawful(Yes).prove(&vec![], &less));
}
