use std::rc::Rc;
use structural_types::refinement::determined::{or, BaseFunctor, Clause, Context, NegTyp, PosTyp, ProdFunctor, Prop, Term};
use structural_types::refinement::term::Sort;
use structural_types::refinement::ErrorKind;

fn scope(sorts: &[Sort]) -> Context {
    Context { sorts: sorts.to_vec() }
}

fn eq(l: usize, r: usize) -> Rc<Prop> {
    Rc::new(Prop::Eq(Rc::new(Term::LVar(l)), Rc::new(Term::LVar(r))))
}

/// An inductive type with one clause, of the given components, whose measure
/// is the variable bound last inside the clause; its values have the
/// measure `t`.
fn measured(components: Vec<BaseFunctor>, t: Term) -> PosTyp {
    let clause = Clause { functor: ProdFunctor { prod: components }, body: Term::LVar(0) };
    PosTyp::Measured(vec![clause], Rc::new(t))
}

fn list(t: Term) -> PosTyp {
    measured(vec![BaseFunctor::Id], t)
}

#[test]
fn or_is_the_union_of_two_sets() {
    assert_eq!(or(vec![true, false], vec![false, false, true]), vec![true, false, true]);
    assert_eq!(or(vec![], vec![]), Vec::<bool>::new());
    assert_eq!(or(vec![false, true, false], vec![true]), vec![true, true, false]);
}

#[test]
fn variables_have_the_sort_they_were_bound_with() {
    let c = scope(&[Sort::Nat, Sort::Bool]);
    assert_eq!(c.get(&0), Ok(Sort::Bool));
    assert_eq!(c.get(&1), Ok(Sort::Nat));
    assert_eq!(c.get(&2), Err(ErrorKind::Unbound));
    let d = c.with(&Sort::Nat);
    assert_eq!(d.sorts, vec![Sort::Nat, Sort::Bool, Sort::Nat]);
    assert_eq!(d.get(&0), Ok(Sort::Nat));
    assert_eq!(d.infer_term(&Term::LVar(1)), Ok(Sort::Bool));
}

#[test]
fn an_equation_is_a_truth_value_where_its_sides_agree() {
    let c = scope(&[Sort::Nat, Sort::Bool, Sort::Nat]);
    assert_eq!(c.infer_prop(&eq(0, 2)), Ok(Sort::Bool));
    assert_eq!(c.infer_prop(&eq(0, 1)), Err(ErrorKind::Sort));
    assert_eq!(c.infer_prop(&eq(3, 9)), Err(ErrorKind::Unbound));
    assert_eq!(c.infer_term(&Term::Prop(eq(0, 2))), Ok(Sort::Bool));
    let nested = Prop::Eq(Rc::new(Term::Prop(eq(0, 2))), Rc::new(Term::LVar(1)));
    assert_eq!(c.infer_prop(&nested), Ok(Sort::Bool));
}

#[test]
fn a_measure_determines_its_variable() {
    let c = scope(&[Sort::Nat, Sort::Nat]);
    assert_eq!(c.value_determined_pos(&list(Term::LVar(1))), Ok(vec![false, true]));
    assert_eq!(c.value_determined_pos(&list(Term::LVar(0))), Ok(vec![true]));
    assert_eq!(c.value_determined_pos(&list(Term::LVar(2))), Err(ErrorKind::Unbound));
}

#[test]
fn a_bound_variable_must_be_determined() {
    let c = scope(&[]);
    let fine = PosTyp::Exists(Sort::Nat, Rc::new(list(Term::LVar(0))));
    assert_eq!(c.value_determined_pos(&fine), Ok(vec![]));
    let loose = PosTyp::Exists(Sort::Nat, Rc::new(PosTyp::Prod(vec![])));
    assert_eq!(c.value_determined_pos(&loose), Err(ErrorKind::Undetermined));
    let outer = PosTyp::Exists(Sort::Nat, Rc::new(PosTyp::Exists(Sort::Nat, Rc::new(list(Term::LVar(0))))));
    assert_eq!(c.value_determined_pos(&outer), Err(ErrorKind::Undetermined));
    let both = PosTyp::Exists(
        Sort::Nat,
        Rc::new(PosTyp::Exists(Sort::Nat, Rc::new(PosTyp::Prod(vec![list(Term::LVar(0)), list(Term::LVar(1))])))),
    );
    assert_eq!(c.value_determined_pos(&both), Ok(vec![]));
}

#[test]
fn a_tuple_determines_what_its_components_determine() {
    let c = scope(&[Sort::Nat, Sort::Nat, Sort::Nat]);
    let p = PosTyp::Prod(vec![list(Term::LVar(2)), PosTyp::Prod(vec![]), list(Term::LVar(0))]);
    assert_eq!(c.value_determined_pos(&p), Ok(vec![true, false, true]));
    let q = PosTyp::Prod(vec![list(Term::LVar(0)), list(Term::LVar(7)), list(Term::LVar(8))]);
    assert_eq!(c.value_determined_pos(&q), Err(ErrorKind::Unbound));
}

#[test]
fn a_refinement_must_be_a_truth_value() {
    let c = scope(&[Sort::Bool, Sort::Nat]);
    let p = PosTyp::Refined(Rc::new(list(Term::LVar(0))), eq(0, 0));
    assert_eq!(c.value_determined_pos(&p), Ok(vec![true]));
    let q = PosTyp::Refined(Rc::new(list(Term::LVar(0))), eq(0, 1));
    assert_eq!(c.value_determined_pos(&q), Err(ErrorKind::Sort));
}

#[test]
fn a_measure_has_the_sort_of_its_clauses() {
    let c = scope(&[Sort::Bool]);
    // the clause binds a variable of the sort of the measure and returns it
    assert_eq!(c.value_determined_pos(&list(Term::LVar(0))), Ok(vec![true]));
    // without a component the clause returns the variable in scope
    let leaf = measured(vec![], Term::LVar(0));
    assert_eq!(c.value_determined_pos(&leaf), Ok(vec![true]));
    let wrong = PosTyp::Measured(
        vec![Clause { functor: ProdFunctor { prod: vec![] }, body: Term::Prop(eq(0, 0)) }],
        Rc::new(Term::LVar(0)),
    );
    assert_eq!(scope(&[Sort::Nat]).value_determined_pos(&wrong), Err(ErrorKind::Sort));
    let head = BaseFunctor::Pos(PosTyp::Exists(Sort::Nat, Rc::new(list(Term::LVar(0)))));
    let inner = measured(vec![head], Term::LVar(0));
    assert_eq!(scope(&[Sort::Nat]).value_determined_pos(&inner), Ok(vec![true]));
}

#[test]
fn an_inductive_type_needs_a_clause() {
    let c = scope(&[Sort::Nat]);
    let p = PosTyp::Measured(vec![], Rc::new(Term::LVar(0)));
    assert_eq!(c.value_determined_pos(&p), Err(ErrorKind::Arity));
}

#[test]
fn clauses_determine_what_all_of_them_determine() {
    let c = scope(&[Sort::Nat, Sort::Nat, Sort::Nat]);
    let first = ProdFunctor { prod: vec![BaseFunctor::Pos(list(Term::LVar(2))), BaseFunctor::Id] };
    let second = ProdFunctor {
        prod: vec![BaseFunctor::Pos(PosTyp::Prod(vec![list(Term::LVar(1)), list(Term::LVar(2))]))],
    };
    assert_eq!(c.value_determined_functor(&first), Ok(vec![false, false, true]));
    assert_eq!(c.value_determined_functor(&second), Ok(vec![false, true, true]));
    let clauses = vec![
        Clause { functor: first, body: Term::Prop(eq(0, 0)) },
        Clause { functor: second, body: Term::Prop(eq(1, 2)) },
    ];
    let p = PosTyp::Measured(clauses, Rc::new(Term::Prop(eq(0, 1))));
    assert_eq!(c.value_determined_pos(&p), Ok(vec![false, false, true]));
}

#[test]
fn a_measure_that_is_a_variable_cuts_the_set_there() {
    let c = scope(&[Sort::Nat, Sort::Nat]);
    let by_outer = BaseFunctor::Pos(list(Term::LVar(1)));
    let p = measured(vec![by_outer], Term::LVar(0));
    assert_eq!(c.value_determined_pos(&p), Ok(vec![true]));
}

#[test]
fn negative_types() {
    let c = scope(&[Sort::Nat, Sort::Nat]);
    let force = NegTyp::Force(Rc::new(list(Term::LVar(0))));
    assert_eq!(c.value_determined_neg(&force), Ok(vec![]));
    let fun = NegTyp::Fun(Rc::new(list(Term::LVar(1))), Rc::new(NegTyp::Force(Rc::new(PosTyp::Prod(vec![])))));
    assert_eq!(c.value_determined_neg(&fun), Ok(vec![false, true]));
    // under the binder the variable at position 1 is the one that was last before
    let all = NegTyp::Forall(Sort::Nat, Rc::new(NegTyp::Fun(Rc::new(list(Term::LVar(0))), Rc::new(fun))));
    assert_eq!(c.value_determined_neg(&all), Ok(vec![true]));
    let loose = NegTyp::Forall(Sort::Nat, Rc::new(force));
    assert_eq!(c.value_determined_neg(&loose), Err(ErrorKind::Undetermined));
    let implied = NegTyp::Implies(eq(0, 1), Rc::new(NegTyp::Force(Rc::new(list(Term::LVar(1))))));
    assert_eq!(c.value_determined_neg(&implied), Ok(vec![]));
    let thunk = PosTyp::Thunk(Rc::new(NegTyp::Fun(Rc::new(list(Term::LVar(7))), Rc::new(NegTyp::Force(Rc::new(PosTyp::Prod(vec![])))))));
    assert_eq!(c.value_determined_pos(&thunk), Err(ErrorKind::Unbound));
}
