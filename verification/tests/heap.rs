use std::rc::Rc;
use structural_types::refinement::heap::{Cell, Heap, SubContext};
use structural_types::refinement::list::List;
use structural_types::refinement::oracle::{Oracle, Plain};
use structural_types::refinement::term::{BinOp, Sort, Term};
use structural_types::refinement::unfold::exact;
use structural_types::refinement::{Cond, ConsumeErr, ErrorKind, Forall, FuncTerm, Resource, Session};

/// Grants that two terms are equal where they are written alike once the
/// first variable is read as the second, and everything that `Plain`
/// grants.
struct FirstIsSecond;

impl FirstIsSecond {
    fn rename(t: &Term) -> Term {
        match t {
            Term::UVar(0, s) => Term::UVar(1, *s),
            Term::Op(op, l, r) => op.apply(&FirstIsSecond::rename(l), &FirstIsSecond::rename(r)),
            other => other.clone(),
        }
    }
}

impl Oracle for FirstIsSecond {
    fn entails(&self, _facts: vstd::seq::Seq<Term>, _goal: Term) -> bool {
        unreachable!()
    }

    fn prove(&self, facts: &Vec<Term>, goal: &Term) -> bool {
        Plain.prove(facts, &FirstIsSecond::rename(goal))
    }
}

fn session<O: Oracle>(oracle: O) -> Session<O> {
    Session::new(oracle, Vec::new(), 4)
}

fn x(i: usize) -> Term {
    Term::UVar(i, 32)
}

fn context(n: usize) -> SubContext {
    let mut ctx = SubContext::new();
    ctx.univ = n;
    ctx
}

fn mask_below(base: &Term, n: i64) -> FuncTerm {
    let index = Term::Bound(0, 32);
    FuncTerm { arity: 1, body: BinOp::Less.apply(&BinOp::Sub.apply(&index, base), &Term::lit(n, 32)) }
}

#[test]
fn produce_owned_records_a_fresh_cell() {
    let mut ctx = context(5);
    let v = ctx.produce_owned(&x(0), Sort::Nat).unwrap();
    assert!(v.same(&x(5)));
    assert_eq!(ctx.univ, 6);
    assert_eq!(ctx.alloc.len(), 1);
    assert!(ctx.alloc[0].ptr.same(&x(0)));
    assert!(ctx.alloc[0].value.same(&x(5)));
}

#[test]
fn a_cell_is_produced_for_every_sort_and_at_every_address() {
    let sess = session(Plain);
    let mut ctx = context(5);
    let v = ctx.produce_owned(&x(0), Sort::Bool).unwrap();
    assert!(v.same(&x(5)));
    let w = ctx.produce_owned(&x(0), Sort::Nat).unwrap();
    assert!(w.same(&x(6)));
    assert_eq!(ctx.alloc.len(), 2);
    assert!(ctx.alloc[0].ptr.same(&x(0)) && ctx.alloc[0].value.same(&x(5)));
    assert!(ctx.alloc[1].ptr.same(&x(0)) && ctx.alloc[1].value.same(&x(6)));
    assert_eq!(ctx.consume_owned(&sess, &x(0), Sort::Bool).err(), Some(ErrorKind::Sort));
    assert_eq!(ctx.alloc.len(), 2);
}

#[test]
fn consume_owned_takes_the_first_cell_at_the_address() {
    let sess = session(FirstIsSecond);
    let mut ctx = context(9);
    ctx.alloc.push(Cell { ptr: x(2), value: x(3) });
    ctx.alloc.push(Cell { ptr: x(0), value: x(4) });
    ctx.alloc.push(Cell { ptr: x(1), value: x(5) });
    let v = ctx.consume_owned(&sess, &x(1), Sort::Nat).unwrap();
    assert!(v.same(&x(4)));
    assert_eq!(ctx.alloc.len(), 2);
    assert!(ctx.alloc[0].ptr.same(&x(2)));
    assert!(ctx.alloc[1].ptr.same(&x(1)));
}

#[test]
fn consume_owned_fails_where_nothing_is_held() {
    let sess = session(Plain);
    let mut ctx = context(0);
    assert_eq!(ctx.consume_owned(&sess, &x(0), Sort::Nat).err(), Some(ErrorKind::Absent));
}

#[test]
fn the_same_cell_is_not_consumed_twice() {
    let sess = session(Plain);
    let mut ctx = context(1);
    ctx.produce_owned(&x(0), Sort::Nat).unwrap();
    assert!(ctx.consume_owned(&sess, &x(0), Sort::Nat).is_ok());
    assert_eq!(ctx.consume_owned(&sess, &x(0), Sort::Nat).err(), Some(ErrorKind::Absent));
}

#[test]
fn what_is_produced_is_consumed_with_the_same_value() {
    let sess = session(Plain);
    let mut ctx = context(1);
    let made = ctx.produce_owned(&x(0), Sort::Nat).unwrap();
    let taken = ctx.consume_owned(&sess, &x(0), Sort::Nat).unwrap();
    assert!(made.same(&taken));
    assert!(ctx.alloc.is_empty());
}

#[test]
fn a_cell_is_taken_out_of_a_family() {
    let sess = session(Plain);
    let mut ctx = context(7);
    let base = Term::lit(16, 32);
    let family = Forall { named: Resource::Owned, mask: mask_below(&base, 4), span: None };
    ctx.produce_forall(&family).unwrap();
    let at = Term::lit(18, 32);
    let v = ctx.consume_owned(&sess, &at, Sort::Nat).unwrap();
    assert!(v.same(&x(7)));
    assert_eq!(ctx.univ, 8);
    assert_eq!(ctx.forall.len(), 1);
    assert_eq!(ctx.forall[0].taken.to_vec().len(), 1);
    assert!(ctx.forall[0].taken.to_vec()[0].same(&at));
    // the same cell is gone, its neighbour is still there, the end is not
    assert_eq!(ctx.consume_owned(&sess, &at, Sort::Nat).err(), Some(ErrorKind::Absent));
    assert!(ctx.consume_owned(&sess, &Term::lit(19, 32), Sort::Nat).is_ok());
    assert_eq!(ctx.consume_owned(&sess, &Term::lit(20, 32), Sort::Nat).err(), Some(ErrorKind::Absent));
}

#[test]
fn a_family_is_consumed_with_the_cells_taken_out_of_it() {
    let sess = session(Plain);
    let mut ctx = context(0);
    let base = Term::lit(16, 32);
    let family = Forall { named: Resource::Owned, mask: mask_below(&base, 4), span: None };
    ctx.produce_forall(&family).unwrap();
    let at = Term::lit(17, 32);
    ctx.consume_owned(&sess, &at, Sort::Nat).unwrap();
    let mut short = ctx.clone();
    assert_eq!(short.consume_forall(&sess, &family).err(), Some(ErrorKind::Absent));
    ctx.produce_owned(&at, Sort::Nat).unwrap();
    ctx.consume_forall(&sess, &family).unwrap();
    assert!(ctx.forall.is_empty());
    assert!(ctx.alloc.is_empty());
}

#[test]
fn a_family_of_another_resource_is_not_taken() {
    let sess = session(Plain);
    let mut ctx = context(0);
    let mask = mask_below(&Term::lit(0, 32), 4);
    ctx.produce_forall(&Forall { named: Resource::Named(1), mask: mask.clone(), span: None }).unwrap();
    let want = Forall { named: Resource::Named(2), mask: mask.clone(), span: None };
    assert_eq!(ctx.consume_forall(&sess, &want).err(), Some(ErrorKind::Absent));
    let want = Forall { named: Resource::Named(1), mask, span: None };
    assert!(ctx.consume_forall(&sess, &want).is_ok());
    assert!(ctx.forall.is_empty());
}

#[test]
fn consume_assert_asks_the_oracle() {
    let sess = session(Plain);
    let mut ctx = context(0);
    let fact = x(0).eq(&x(1));
    assert_eq!(ctx.consume_assert(&sess, &fact).err(), Some(ErrorKind::Unprovable));
    assert_eq!(ctx.consume_assert(&sess, &x(0)).err(), Some(ErrorKind::Sort));
    ctx.assert_prop(&sess, Heap::Produce, &fact, 4).unwrap();
    assert_eq!(ctx.facts.len(), 1);
    assert!(ctx.consume_assert(&sess, &fact).is_ok());
    assert!(ctx.assert_prop(&sess, Heap::Consume, &fact, 4).is_ok());
}

#[test]
fn produce_assert_rejects_a_number() {
    let sess = session(Plain);
    let mut ctx = context(0);
    let r = ctx.assert_prop(&sess, Heap::Produce, &x(0), 4);
    assert_eq!(r, Err(ConsumeErr { kind: ErrorKind::Sort, span: None }));
}

#[test]
fn a_conditional_resource_waits_and_is_found_again() {
    let sess = session(Plain);
    let mut ctx = context(0);
    let cond = Cond { named: 0, cond: x(0).not_zero(), args: List::from_vec(&vec![x(1)]), span: None };
    ctx.switch(&sess, Heap::Produce, &cond, 4).unwrap();
    assert_eq!(ctx.cond.len(), 1);
    let other = Cond { named: 0, cond: x(0).not_zero(), args: List::from_vec(&vec![x(2)]), span: None };
    assert_eq!(ctx.switch(&sess, Heap::Consume, &other, 4), Err(ConsumeErr { kind: ErrorKind::Absent, span: None }));
    // what could not be consumed is not held back either
    assert_eq!(ctx.cond.len(), 1);
    assert!(ctx.cond[0].args.to_vec()[0].same(&x(1)));
    ctx.switch(&sess, Heap::Consume, &cond, 4).unwrap();
    assert!(ctx.cond.is_empty());
}

#[test]
fn a_conditional_resource_that_is_denied_is_nothing() {
    let sess = session(Plain);
    let mut ctx = context(0);
    let never = BinOp::Less.apply(&Term::lit(4, 32), &Term::lit(1, 32));
    let cond = Cond { named: 0, cond: never, args: Rc::new(List::Nil), span: None };
    ctx.switch(&sess, Heap::Produce, &cond, 4).unwrap();
    assert!(ctx.cond.is_empty());
    ctx.switch(&sess, Heap::Consume, &cond, 4).unwrap();
}

#[test]
fn a_granted_condition_unfolds_a_name_that_must_exist() {
    let sess = session(Plain);
    let mut ctx = context(0);
    let always = BinOp::Less.apply(&Term::lit(1, 32), &Term::lit(4, 32));
    let cond = Cond { named: 0, cond: always, args: Rc::new(List::Nil), span: None };
    let r = ctx.switch(&sess, Heap::Produce, &cond, 4);
    assert_eq!(r, Err(ConsumeErr { kind: ErrorKind::Unbound, span: None }));
}

#[test]
fn exact_holds_at_its_arguments() {
    let f = exact(3, &vec![x(0), x(1)]);
    assert_eq!(f.named, Resource::Named(3));
    assert_eq!(f.mask.arity, 2);
    let at = f.mask.apply(&vec![Term::lit(1, 32), Term::lit(2, 32)]);
    let want = BinOp::And.apply(
        &BinOp::And.apply(&Term::lit(1, 32), &Term::lit(1, 32).eq(&x(0))),
        &Term::lit(2, 32).eq(&x(1)),
    );
    assert!(at.same(&want));
}

#[test]
fn fresh_variables_are_numbered_on() {
    let mut ctx = context(3);
    let vars = ctx.fresh(2).unwrap();
    assert!(vars[0].same(&x(3)));
    assert!(vars[1].same(&x(4)));
    assert_eq!(ctx.univ, 5);
    ctx.univ = usize::MAX;
    assert!(ctx.fresh(1).is_none());
    assert_eq!(ctx.produce_owned(&x(0), Sort::Nat).err(), Some(ErrorKind::Limit));
}

#[test]
fn without_alloc_keeps_the_facts_only() {
    let sess = session(Plain);
    let mut ctx = context(2);
    ctx.assert_prop(&sess, Heap::Produce, &x(0).eq(&x(1)), 4).unwrap();
    ctx.produce_owned(&x(0), Sort::Nat).unwrap();
    let bare = ctx.without_alloc();
    assert_eq!(bare.facts.len(), 1);
    assert!(bare.alloc.is_empty());
    assert_eq!(bare.univ, ctx.univ);
    assert_eq!(ctx.clone().check_empty(), Err(ErrorKind::Leak));
    assert_eq!(bare.check_empty(), Ok(()));
}

#[test]
fn an_equality_is_a_proposition() {
    let sess = session(Plain);
    let mut ctx = context(0);
    assert!(ctx.assert_eq(&sess, Heap::Consume, &x(0), &x(0), 4).is_ok());
    let r = ctx.assert_eq(&sess, Heap::Consume, &x(0), &x(1), 4);
    assert_eq!(r, Err(ConsumeErr { kind: ErrorKind::Unprovable, span: None }));
    ctx.assert_eq(&sess, Heap::Produce, &x(0), &x(1), 4).unwrap();
    assert!(ctx.facts[0].same(&x(0).eq(&x(1))));
    assert!(ctx.assert_eq(&sess, Heap::Consume, &x(0), &x(1), 4).is_ok());
}

#[test]
fn a_fact_settles_what_was_waiting() {
    let sess = session(Plain);
    let mut ctx = context(0);
    let cond = Cond { named: 0, cond: x(0).not_zero(), args: Rc::new(List::Nil), span: None };
    ctx.switch(&sess, Heap::Produce, &cond, 4).unwrap();
    let other = Cond { named: 0, cond: x(1).not_zero(), args: Rc::new(List::Nil), span: None };
    ctx.switch(&sess, Heap::Produce, &other, 4).unwrap();
    assert_eq!(ctx.cond.len(), 2);
    // the fact denies the first condition and says nothing of the second
    let denied = x(0).not_zero().eq(&Term::lit(0, 32));
    ctx.assert_prop(&sess, Heap::Produce, &denied, 4).unwrap();
    assert_eq!(ctx.cond.len(), 1);
    assert!(ctx.cond[0].cond.same(&x(1).not_zero()));
    // the fact grants the second condition, whose resource has no definition
    let r = ctx.assert_prop(&sess, Heap::Produce, &x(1).not_zero(), 4);
    assert_eq!(r, Err(ConsumeErr { kind: ErrorKind::Unbound, span: None }));
}

#[test]
fn a_proposition_is_consumed_while_something_waits() {
    let sess = session(Plain);
    let mut ctx = context(0);
    let cond = Cond { named: 0, cond: x(0).not_zero(), args: Rc::new(List::Nil), span: None };
    ctx.switch(&sess, Heap::Produce, &cond, 4).unwrap();
    let fact = x(1).eq(&x(2));
    ctx.assert_prop(&sess, Heap::Produce, &fact, 4).unwrap();
    assert_eq!(ctx.cond.len(), 1);
    ctx.assert_prop(&sess, Heap::Consume, &fact, 4).unwrap();
    assert_eq!(ctx.cond.len(), 1);
    assert_eq!(ctx.facts.len(), 1);
}
