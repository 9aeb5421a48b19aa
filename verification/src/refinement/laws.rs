//! What holds of the two ways to meet an obligation, and of the checker.

use super::heap::{Cell, Heap, State};
use super::list::{List, Scope};
use super::oracle::{denied, equal, grants_facts, reflexive, Lawful, Oracle};
use super::term::{Sort, Term};
use super::typing::{arrow, guard, holds};
use super::unfold::{all_equal, locate, resource_of, signature};
use super::{
    BoundExpr, Cond, ConsumeErr, CtxForall, ErrorKind, Expr, Forall, Fun, FuncTerm, Lambda, Name, NegTyp, PosTyp,
    Session, Span, Spanned, Value, WeakNameList,
};
use crate::parse::desugar::{reserved, term_of, terms_of};
use crate::parse::expr;
use crate::parse::types::{self, Constraint, Prop};
use std::rc::Rc;
use vstd::prelude::*;

verus! {

impl State {
    /// Whether the oracle grants that the cell at position `i` is at `ptr`.
    pub open spec fn cell_at<O: Oracle>(self, o: &O, ptr: Term, i: int) -> bool {
        o.entails(self.facts, equal(self.alloc[i].ptr, ptr))
    }

    /// The search for a cell finds the first cell from `i` on that the
    /// oracle grants to be at `ptr`, and finds none only where there is
    /// none.
    pub proof fn lemma_find_cell<O: Oracle>(self, o: &O, ptr: Term, i: int)
        requires
            0 <= i,
        ensures
            match self.find_cell(o, ptr, i) {
                Some(k) => i <= k < self.alloc.len() && self.cell_at(o, ptr, k) && forall|j: int|
                    i <= j < k ==> !self.cell_at(o, ptr, j),
                None => forall|j: int| i <= j < self.alloc.len() ==> !self.cell_at(o, ptr, j),
            },
        decreases self.alloc.len() - i,
    {
        if i < self.alloc.len() {
            self.lemma_find_cell(o, ptr, i + 1);
        }
    }
}

/// A cell cannot be consumed twice. Where a context holds exactly one cell
/// that the oracle grants to be at `ptr`, and no family in it yields a cell
/// there afterwards, the first consumption takes that cell and the second
/// finds the resource absent.
pub proof fn lemma_no_double_consumption<O: Oracle>(st: State, o: &O, ptr: Term, i: int)
    requires
        0 <= i < st.alloc.len(),
        st.cell_at(o, ptr, i),
        forall|j: int| 0 <= j < st.alloc.len() && j != i ==> !st.cell_at(o, ptr, j),
        (State { alloc: st.alloc.remove(i), ..st }).find_family(o, ptr, 0) is None,
    ensures
        st.consume_owned(o, ptr, Sort::Nat) == Ok::<(State, Term), ErrorKind>(
            (State { alloc: st.alloc.remove(i), ..st }, st.alloc[i].value),
        ),
        (State { alloc: st.alloc.remove(i), ..st }).consume_owned(o, ptr, Sort::Nat) == Err::<
            (State, Term),
            ErrorKind,
        >(ErrorKind::Absent),
{
    let st1 = State { alloc: st.alloc.remove(i), ..st };
    st.lemma_find_cell(o, ptr, 0);
    st1.lemma_find_cell(o, ptr, 0);
    assert forall|j: int| 0 <= j < st1.alloc.len() implies !st1.cell_at(o, ptr, j) by {
        if j < i {
            assert(st1.alloc[j] == st.alloc[j]);
            assert(!st.cell_at(o, ptr, j));
        } else {
            assert(st1.alloc[j] == st.alloc[j + 1]);
            assert(!st.cell_at(o, ptr, j + 1));
        }
    }
}

/// Consuming from a context that holds no cell and no family fails: the
/// resource is absent.
pub proof fn lemma_consume_from_nothing<O: Oracle>(st: State, o: &O, ptr: Term)
    requires
        st.alloc.len() == 0,
        st.forall.len() == 0,
    ensures
        st.consume_owned(o, ptr, Sort::Nat) == Err::<(State, Term), ErrorKind>(ErrorKind::Absent),
{
}

/// A cell that was produced can be consumed at once. Where no cell held
/// before is granted to be at `ptr`, and the oracle grants that a term
/// equals itself, consuming at `ptr` right after producing there succeeds,
/// returns the very value that was produced, and leaves what was held
/// before.
pub proof fn lemma_owned_duality<O: Oracle>(st: State, o: &O, ptr: Term)
    requires
        reflexive(o),
        st.univ < usize::MAX,
        forall|j: int| 0 <= j < st.alloc.len() ==> !st.cell_at(o, ptr, j),
    ensures
        st.produce_owned(ptr, Sort::Nat) matches Ok((made, value)) && value == Term::UVar(st.univ, 32)
            && made.consume_owned(o, ptr, Sort::Nat) == Ok::<(State, Term), ErrorKind>(
            (State { univ: made.univ, ..st }, value),
        ),
{
    let value = Term::UVar(st.univ, 32);
    let made = State { alloc: st.alloc.push(Cell { ptr, value }), univ: (st.univ + 1) as usize, ..st };
    let n = st.alloc.len() as int;
    made.lemma_find_cell(o, ptr, 0);
    assert(made.cell_at(o, ptr, n));
    assert forall|j: int| 0 <= j < n implies !made.cell_at(o, ptr, j) by {
        assert(made.alloc[j] == st.alloc[j]);
        assert(st.cell_at(o, ptr, j) == made.cell_at(o, ptr, j));
    }
    assert(made.find_cell(o, ptr, 0) == Some(n));
    assert(made.alloc.remove(n) =~= st.alloc);
}

/// A family that was produced can be consumed at once. Where no family
/// held before matches it, and the oracle grants that a term equals itself,
/// consuming it right after producing it succeeds and leaves what was held
/// before.
pub proof fn lemma_forall_duality<O: Oracle>(st: State, o: &O, want: Forall)
    requires
        reflexive(o),
        st.find_forall(o, want, 0) is None,
    ensures
        st.produce_forall(want) matches Ok((made, _)) && made.consume_forall(o, want) == Ok::<
            (State, ()),
            ErrorKind,
        >((st, ())),
{
    let held = CtxForall { have: want, taken: Rc::new(List::Nil) };
    let made = State { forall: st.forall.push(held), ..st };
    let n = st.forall.len() as int;
    lemma_find_forall_pushed(st, o, want, held, 0);
    assert(made.forall.remove(n) =~= st.forall);
    assert(made.forall[n] == held);
}

/// A search that finds no family before one more family is held finds that
/// family afterwards, where it matches.
proof fn lemma_find_forall_pushed<O: Oracle>(st: State, o: &O, want: Forall, held: CtxForall, i: int)
    requires
        reflexive(o),
        0 <= i <= st.forall.len(),
        st.find_forall(o, want, i) is None,
        held.have == want,
    ensures
        (State { forall: st.forall.push(held), ..st }).find_forall(o, want, i) == Some(st.forall.len() as int),
    decreases st.forall.len() - i,
{
    let made = State { forall: st.forall.push(held), ..st };
    if i < st.forall.len() {
        assert(made.forall[i] == st.forall[i]);
        lemma_find_forall_pushed(st, o, want, held, i + 1);
    } else {
        assert(made.forall[i] == held);
        assert(o.entails(made.facts, equal(want.mask.body, want.mask.body)));
    }
}

/// What is left over is a leak. Where the values of a return have terms,
/// and the result type can be consumed but a cell or a family is left,
/// the check of the return fails with a leak at the place of the values.
pub proof fn lemma_leak_at_return<O: Oracle>(st: State, sess: &Session<O>, v: Value, p: Fun<PosTyp>)
    requires
        st.calc_args(&sess.oracle, *v.inj) is Ok,
        st.apply_pos(
            &sess.oracle,
            sess.names@,
            Heap::Consume,
            p,
            st.calc_args(&sess.oracle, *v.inj)->Ok_0,
            sess.depth as nat,
        ) matches Ok((left, _)) && (left.alloc.len() > 0 || left.forall.len() > 0),
    ensures
        st.check_return(sess, v, p) == Err::<(), ConsumeErr>(ConsumeErr { kind: ErrorKind::Leak, span: v.span }),
        st.check_expr_pos(sess, Expr::Return(v), p) == Err::<(), ConsumeErr>(
            ConsumeErr { kind: ErrorKind::Leak, span: v.span },
        ),
{
}

/// The verdict on one branch of a match on `term`: the branch is checked
/// alone, from the state in which the match is met, with its guard for its
/// one new fact.
pub open spec fn branch_verdict<O: Oracle>(
    st: State,
    sess: &Session<O>,
    term: Term,
    l: Lambda,
    i: nat,
    last: bool,
    p: Fun<PosTyp>,
) -> Result<(), ConsumeErr> {
    st.check_expr(sess, l, arrow(holds(guard(term, i, last)), p))
}

/// The branches of a match do not see one another. A match with two
/// branches passes exactly where each branch passes when it is checked
/// alone from the state in which the match is met: what one branch consumes
/// is still there for the other.
pub proof fn lemma_branch_isolation<O: Oracle>(
    st: State,
    sess: &Session<O>,
    term: Term,
    first: Lambda,
    second: Lambda,
    p: Fun<PosTyp>,
)
    ensures
        st.check_arms(sess, term, List::Cons(first, Rc::new(List::Cons(second, Rc::new(List::Nil)))), 0, p) is Ok
            <==> branch_verdict(st, sess, term, first, 0, false, p) is Ok && branch_verdict(
            st,
            sess,
            term,
            second,
            1,
            true,
            p,
        ) is Ok,
        branch_verdict(st, sess, term, first, 0, false, p) matches Err(e) ==> st.check_arms(
            sess,
            term,
            List::Cons(first, Rc::new(List::Cons(second, Rc::new(List::Nil)))),
            0,
            p,
        ) == Err::<(), ConsumeErr>(e),
{
    let one = List::Cons(second, Rc::new(List::Nil));
    let two = List::Cons(first, Rc::new(one));
    let a = branch_verdict(st, sess, term, first, 0, false, p);
    let b = branch_verdict(st, sess, term, second, 1, true, p);
    assert(st.check_arms(sess, term, List::Nil, 2, p) == Ok::<(), ConsumeErr>(()));
    assert(st.check_arms(sess, term, one, 1, p) == match b {
        Err(e) => Err::<(), ConsumeErr>(e),
        Ok(_) => st.check_arms(sess, term, List::Nil, 2, p),
    });
    assert(st.check_arms(sess, term, two, 0, p) == match a {
        Err(e) => Err::<(), ConsumeErr>(e),
        Ok(_) => st.check_arms(sess, term, one, 1, p),
    });
}

/// Whether an obligation names what it asks for: every obligation does
/// but a cell or the parts of a resource without a name.
pub open spec fn plain(c: Constraint) -> bool {
    match c {
        Constraint::Builtin(_, call) => call.func is Some,
        _ => true,
    }
}

/// Whether a type is written in the surface syntax, each of its obligations
/// naming what it asks for.
pub open spec fn plain_typ(fun: Fun<PosTyp>) -> bool {
    fun.fun matches PosTyp::Declared { named, terms, typ } && forall|k: int|
        0 <= k < typ.val.parts@.len() ==> plain(#[trigger] typ.val.parts@[k].val)
}

/// Whether every named resource is defined by such a type.
pub open spec fn plain_names(names: Seq<Name>) -> bool {
    forall|id: int| 0 <= id < names.len() ==> plain_typ(#[trigger] names[id].typ)
}

/// The number of obligations of a type of the surface syntax.
pub open spec fn parts_len(fun: Fun<PosTyp>) -> nat {
    match fun.fun {
        PosTyp::Declared { named, terms, typ } => typ.val.parts@.len(),
        _ => 0,
    }
}

/// The identifier of a name that has one.
pub open spec fn id_of(named: WeakNameList, name: Seq<char>) -> usize {
    named.0.get(name)->Some_0
}

/// The term of a proposition that has one.
pub open spec fn prop_of(p: Prop, terms: Rc<Scope<Term>>) -> Term {
    term_of(p.lower(*terms))->Ok_0
}

/// The term of a value that has one.
pub open spec fn value_of(v: expr::Value, terms: Rc<Scope<Term>>) -> Term {
    term_of(v.lower(*terms))->Ok_0
}

/// The terms of values that all have one.
pub open spec fn values_of(vals: Seq<expr::Value>, terms: Rc<Scope<Term>>) -> Seq<Term> {
    terms_of(vals, *terms, vals.len() as int)->Ok_0
}

/// The family that an obligation of the surface syntax asks for.
pub open spec fn family_of(
    f: types::Forall,
    named: WeakNameList,
    terms: Rc<Scope<Term>>,
    span: Span,
) -> Forall {
    Forall {
        named: resource_of(named, f.named@)->Some_0,
        mask: FuncTerm {
            arity: f.names.len(),
            body: term_of(f.cond.lower(terms.bind_indices(f.names@, 0)))->Ok_0,
        },
        span: Some(span),
    }
}

/// The scope in which the names of a type stand for the terms that the
/// type is applied to.
pub open spec fn bound(terms: Rc<Scope<Term>>, names: Seq<String>, args: Seq<Term>) -> Rc<Scope<Term>> {
    Rc::new(terms.bind_all(names, args, 0))
}

/// Whether a state has at least the facts, the cells, the families and the
/// conditional resources of another, in the same places.
pub open spec fn grown(from: State, to: State) -> bool {
    &&& from.facts.len() <= to.facts.len()
    &&& forall|j: int| 0 <= j < from.facts.len() ==> to.facts[j] == from.facts[j]
    &&& from.alloc.len() <= to.alloc.len()
    &&& forall|j: int| 0 <= j < from.alloc.len() ==> to.alloc[j] == from.alloc[j]
    &&& from.forall.len() <= to.forall.len()
    &&& forall|j: int| 0 <= j < from.forall.len() ==> to.forall[j] == from.forall[j]
    &&& from.cond.len() <= to.cond.len()
    &&& forall|j: int| 0 <= j < from.cond.len() ==> to.cond[j] == from.cond[j]
}

/// The conditional resource that an obligation of the surface syntax asks
/// for.
pub open spec fn cond_of(w: types::Switch, named: WeakNameList, terms: Rc<Scope<Term>>, span: Span) -> Cond {
    Cond {
        named: named.0.get(w.named@)->Some_0,
        cond: term_of(w.cond.lower(*terms))->Ok_0,
        args: Rc::new(List::of(terms_of(w.args@, *terms, w.args@.len() as int)->Ok_0, 0)),
        span: Some(span),
    }
}

/// Whether a conditional obligation can be put to a context at all.
pub open spec fn cond_ok(w: types::Switch, named: WeakNameList, terms: Rc<Scope<Term>>) -> bool {
    &&& named.0.get(w.named@) is Some
    &&& term_of(w.cond.lower(*terms)) is Ok
    &&& terms_of(w.args@, *terms, w.args@.len() as int) is Ok
}

impl State {
    /// Whether a search for the conditional resource `want` stops at the one
    /// at position `j`: it is of the same named resource, and the oracle
    /// grants that its condition and its arguments are those of `want`.
    pub open spec fn cond_at<O: Oracle>(self, o: &O, want: Cond, j: int) -> bool {
        let have = self.cond[j];
        have.named == want.named && o.entails(self.facts, equal(have.cond, want.cond)) && all_equal(
            o,
            self.facts,
            *have.args,
            *want.args,
        )
    }

    /// The search for a conditional resource finds the first one from `i`
    /// on at which it stops, and finds none only where there is none.
    pub proof fn lemma_find_cond<O: Oracle>(self, o: &O, want: Cond, i: int)
        requires
            0 <= i,
        ensures
            match self.find_cond(o, want, i) {
                Some(k) => i <= k < self.cond.len() && self.cond_at(o, want, k) && forall|j: int|
                    i <= j < k ==> !self.cond_at(o, want, j),
                None => forall|j: int| i <= j < self.cond.len() ==> !self.cond_at(o, want, j),
            },
        decreases self.cond.len() - i,
    {
        if i < self.cond.len() {
            self.lemma_find_cond(o, want, i + 1);
        }
    }

    /// The state without its cells and families.
    pub open spec fn bare(self) -> State {
        State { alloc: Seq::empty(), forall: Seq::empty(), ..self }
    }

    /// Whether the state has the facts, the function values and the supply
    /// of variables of `base`, and no conditional resource but those of
    /// `base`.
    pub open spec fn follows(self, base: State) -> bool {
        &&& self.facts == base.facts
        &&& self.funcs == base.funcs
        &&& self.univ == base.univ
        &&& forall|j: int| 0 <= j < self.cond.len() ==> base.cond.contains(#[trigger] self.cond[j])
    }

    /// Whether a search for the conditional resource `want` stops nowhere.
    pub open spec fn nobody<O: Oracle>(self, o: &O, want: Cond) -> bool {
        forall|j: int| 0 <= j < self.cond.len() ==> !#[trigger] self.cond_at(o, want, j)
    }
}

/// Whether a fact that was just added decides none of the conditional
/// resources that wait: settling them leaves the state as it is.
#[verifier::opaque]
pub open spec fn settled<O: Oracle>(o: &O, names: Seq<Name>, pushed: State, fuel: nat) -> bool {
    pushed.settle(o, names, pushed.cond.len(), fuel) == Ok::<(State, ()), ConsumeErr>((pushed, ()))
}

/// Whether a function obligation is met by consumption from `base`: the
/// first function value that is known at a provably equal address has a
/// signature that is a subtype of the one asked for, at the depth that is
/// left.
#[verifier::opaque]
pub open spec fn func_met<O: Oracle>(
    o: &O,
    names: Seq<Name>,
    base: State,
    ptr: Term,
    want: Fun<NegTyp>,
    fuel: nat,
) -> bool {
    base.func(o, names, Heap::Consume, ptr, want, fuel) is Ok
}

/// Whether producing the parts of a named resource in `made` is steady:
/// see `steady_part`.
pub open spec fn steady_unfold<O: Oracle>(
    o: &O,
    names: Seq<Name>,
    made: State,
    base: State,
    id: usize,
    args: Seq<Term>,
    fuel: nat,
) -> bool
    decreases fuel, 1int, 0int,
{
    id < names.len() && fuel > 0 ==> steady_apply(o, names, made, base, names[id as int].typ, args, (fuel - 1) as nat)
}

/// Whether producing one obligation in `made` is steady, where `base`
/// holds the facts, the function values and the conditional resources that
/// consumption will find. A proposition is steady where it decides none of
/// the conditional resources that wait. A conditional resource is steady
/// where it is held back, or where its condition is decided alike on both
/// sides and none that waits on the consuming side can be taken for it:
/// granted on both, its parts being steady in turn, or denied and not
/// granted on both. A function obligation is steady where consuming it from
/// `base` succeeds: the function value that is found at its address has a
/// signature that is a subtype of the one asked for, at the depth that is
/// left. Cells and families are always steady.
pub open spec fn steady_part<O: Oracle>(
    o: &O,
    names: Seq<Name>,
    made: State,
    base: State,
    named: WeakNameList,
    terms: Rc<Scope<Term>>,
    c: Constraint,
    span: Span,
    fuel: nat,
) -> bool
    decreases fuel, 4int, 0int,
{
    match c {
        Constraint::Assert(p) => term_of(p.lower(*terms)) is Ok ==> settled(
            o,
            names,
            State { facts: made.facts.push(term_of(p.lower(*terms))->Ok_0), ..made },
            fuel,
        ),
        Constraint::Switch(w) => cond_ok(w, named, terms) ==> {
            let want = cond_of(w, named, terms, span);
            if o.entails(made.facts, want.cond) {
                o.entails(base.facts, want.cond) && base.nobody(o, want) && steady_unfold(
                    o,
                    names,
                    made,
                    base,
                    want.named,
                    want.args.seq(),
                    fuel,
                )
            } else if o.entails(made.facts, denied(want.cond)) {
                !o.entails(base.facts, want.cond) && o.entails(base.facts, denied(want.cond)) && base.nobody(
                    o,
                    want,
                )
            } else {
                true
            }
        },
        Constraint::Func(v, typ) => term_of(v.lower(*terms)) is Ok ==> func_met(
            o,
            names,
            base,
            term_of(v.lower(*terms))->Ok_0,
            signature(named, terms, typ),
            fuel,
        ),
        Constraint::Builtin(_, call) => (call.func matches Some(name) && (name@ != "@byte"@ && !reserved(name@)
            && named.0.get(name@) is Some && terms_of(call.args@, *terms, call.args@.len() as int) is Ok))
            ==> steady_unfold(
            o,
            names,
            made,
            base,
            named.0.get(call.func->Some_0@)->Some_0,
            terms_of(call.args@, *terms, call.args@.len() as int)->Ok_0,
            fuel,
        ),
        _ => true,
    }
}

/// Whether producing the obligations of a type from position `i` on is
/// steady: each obligation is, in the state that those before it left.
pub open spec fn steady_parts<O: Oracle>(
    o: &O,
    names: Seq<Name>,
    made: State,
    base: State,
    named: WeakNameList,
    terms: Rc<Scope<Term>>,
    parts: Seq<Spanned<Constraint>>,
    i: int,
    fuel: nat,
) -> bool
    decreases fuel, 5int, parts.len() - i,
{
    if 0 <= i < parts.len() {
        steady_part(o, names, made, base, named, terms, parts[i].val, parts[i].span, fuel) && (match made.part(
            o,
            names,
            Heap::Produce,
            named,
            terms,
            parts[i].val,
            parts[i].span,
            fuel,
        ) {
            Ok((next, scope)) => steady_parts(o, names, next, base, named, scope, parts, i + 1, fuel),
            Err(_) => true,
        })
    } else {
        true
    }
}

/// Whether producing what a type asks for is steady.
pub open spec fn steady_apply<O: Oracle>(
    o: &O,
    names: Seq<Name>,
    made: State,
    base: State,
    fun: Fun<PosTyp>,
    args: Seq<Term>,
    fuel: nat,
) -> bool
    decreases fuel, 6int, 0int,
{
    match fun.fun {
        PosTyp::Declared { named, terms, typ } => steady_parts(
            o,
            names,
            made,
            base,
            named,
            Rc::new(terms.bind_all(typ.val.names@, args, 0)),
            typ.val.parts@,
            0,
            fuel,
        ),
        _ => true,
    }
}

/// The search for a function value looks at the facts and at the function
/// values only.
pub proof fn lemma_find_func_same<O: Oracle>(a: State, b: State, o: &O, ptr: Term, i: int)
    requires
        a.facts == b.facts,
        a.funcs == b.funcs,
    ensures
        a.find_func(o, ptr, i) == b.find_func(o, ptr, i),
    decreases a.funcs.len() - i,
{
    if 0 <= i < a.funcs.len() {
        lemma_find_func_same(a, b, o, ptr, i + 1);
    }
}

impl State {
    /// Whether a search for the family `want` stops at the family at
    /// position `j`: it is of the same resource, and the oracle grants that
    /// its mask is the mask of `want`.
    pub open spec fn family_at<O: Oracle>(self, o: &O, want: Forall, j: int) -> bool {
        let f = self.forall[j];
        f.have.named == want.named && f.have.mask.arity == want.mask.arity && o.entails(
            self.facts,
            equal(f.have.mask.body, want.mask.body),
        )
    }

    /// The search for a family finds the first family from `i` on at which
    /// it stops, and finds none only where there is none.
    pub proof fn lemma_find_forall<O: Oracle>(self, o: &O, want: Forall, i: int)
        requires
            0 <= i,
        ensures
            match self.find_forall(o, want, i) {
                Some(k) => i <= k < self.forall.len() && self.family_at(o, want, k) && forall|j: int|
                    i <= j < k ==> !self.family_at(o, want, j),
                None => forall|j: int| i <= j < self.forall.len() ==> !self.family_at(o, want, j),
            },
        decreases self.forall.len() - i,
    {
        if i < self.forall.len() {
            self.lemma_find_forall(o, want, i + 1);
        }
    }
}

/// Whether a state can stand for what production made between `made` and
/// `end`, with other resources before and behind. It has the facts of `end`
/// first. It holds `pa` cells and `pf` families of its own first, then the
/// cells and the families that were added to `made`, then whatever else.
/// None of its own cells is granted to be at the address of a cell that
/// was made, and a search for a family that was made stops at none of its
/// own families; and the same holds of the `pc` conditional resources of
/// its own that wait before those that production held back.
pub open spec fn holds_made<O: Oracle>(
    o: &O,
    made: State,
    end: State,
    seen: State,
    pa: int,
    pf: int,
    pc: int,
) -> bool {
    &&& 0 <= pc
    &&& made.cond.len() <= end.cond.len()
    &&& pc + (end.cond.len() - made.cond.len()) <= seen.cond.len()
    &&& forall|q: int|
        made.cond.len() <= q < end.cond.len() ==> seen.cond[pc + (q - made.cond.len())] == #[trigger] end.cond[q]
    &&& forall|j: int, q: int|
        0 <= j < pc && made.cond.len() <= q < end.cond.len() ==> !#[trigger] seen.cond_at(o, end.cond[q], j)
    &&& end.facts.len() <= seen.facts.len()
    &&& forall|j: int| 0 <= j < end.facts.len() ==> seen.facts[j] == end.facts[j]
    &&& 0 <= pa
    &&& made.alloc.len() <= end.alloc.len()
    &&& pa + (end.alloc.len() - made.alloc.len()) <= seen.alloc.len()
    &&& forall|q: int|
        made.alloc.len() <= q < end.alloc.len() ==> seen.alloc[pa + (q - made.alloc.len())] == #[trigger] end.alloc[q]
    &&& forall|j: int, q: int|
        0 <= j < pa && made.alloc.len() <= q < end.alloc.len() ==> !#[trigger] seen.cell_at(o, end.alloc[q].ptr, j)
    &&& 0 <= pf
    &&& made.forall.len() <= end.forall.len()
    &&& pf + (end.forall.len() - made.forall.len()) <= seen.forall.len()
    &&& forall|q: int|
        made.forall.len() <= q < end.forall.len() ==> seen.forall[pf + (q - made.forall.len())]
            == #[trigger] end.forall[q]
    &&& forall|j: int, q: int|
        0 <= j < pf && made.forall.len() <= q < end.forall.len() ==> !#[trigger] seen.family_at(
            o,
            end.forall[q].have,
            j,
        )
}

/// The state without the cells, the families and the conditional resources
/// that production made between `made` and `end`: its own resources before
/// them, and what comes behind them.
pub open spec fn without_made(made: State, end: State, seen: State, pa: int, pf: int, pc: int) -> State {
    State {
        cond: seen.cond.subrange(0, pc) + seen.cond.subrange(
            pc + (end.cond.len() - made.cond.len()),
            seen.cond.len() as int,
        ),
        alloc: seen.alloc.subrange(0, pa) + seen.alloc.subrange(
            pa + (end.alloc.len() - made.alloc.len()),
            seen.alloc.len() as int,
        ),
        forall: seen.forall.subrange(0, pf) + seen.forall.subrange(
            pf + (end.forall.len() - made.forall.len()),
            seen.forall.len() as int,
        ),
        ..seen
    }
}

/// Producing what a type asks for steadily only adds facts, cells,
/// families, conditional resources and function values.
pub proof fn lemma_apply_grows<O: Oracle>(
    st: State,
    base: State,
    o: &O,
    names: Seq<Name>,
    fun: Fun<PosTyp>,
    args: Seq<Term>,
    fuel: nat,
)
    requires
        plain_names(names),
        plain_typ(fun),
        steady_apply(o, names, st, base, fun, args, fuel),
        st.apply_pos(o, names, Heap::Produce, fun, args, fuel) is Ok,
    ensures
        grown(st, st.apply_pos(o, names, Heap::Produce, fun, args, fuel)->Ok_0.0),
    decreases fuel, parts_len(fun) + 1,
{
    match fun.fun {
        PosTyp::Declared { named, terms, typ } => {
            let scope = bound(terms, typ.val.names@, args);
            lemma_produce_grows(st, base, o, names, named, scope, typ.val.parts@, 0, fuel);
        },
        _ => {},
    }
}

/// Producing obligations steadily only adds facts, cells, families,
/// conditional resources and function values: nothing that waits is
/// settled on the way.
pub proof fn lemma_produce_grows<O: Oracle>(
    st: State,
    base: State,
    o: &O,
    names: Seq<Name>,
    named: WeakNameList,
    terms: Rc<Scope<Term>>,
    parts: Seq<Spanned<Constraint>>,
    i: int,
    fuel: nat,
)
    requires
        0 <= i,
        plain_names(names),
        forall|k: int| 0 <= k < parts.len() ==> plain(#[trigger] parts[k].val),
        steady_parts(o, names, st, base, named, terms, parts, i, fuel),
        st.parts(o, names, Heap::Produce, named, terms, parts, i, fuel) is Ok,
    ensures
        grown(st, st.parts(o, names, Heap::Produce, named, terms, parts, i, fuel)->Ok_0.0),
    decreases fuel, parts.len() - i,
{
    if i < parts.len() {
        assert(plain(parts[i].val));
        let one = locate(
            st.part(o, names, Heap::Produce, named, terms, parts[i].val, parts[i].span, fuel),
            Some(parts[i].span),
        );
        let (st1, scope) = one->Ok_0;
        assert(steady_part(o, names, st, base, named, terms, parts[i].val, parts[i].span, fuel));
        match parts[i].val {
            Constraint::Assert(p) => {
                let phi = prop_of(p, terms);
                let pushed = State { facts: st.facts.push(phi), ..st };
                assert(settled(o, names, pushed, fuel));
                reveal(settled);
                assert(st1 == pushed);
            },
            Constraint::Switch(w) => {
                let want = cond_of(w, named, terms, parts[i].span);
                if o.entails(st.facts, want.cond) {
                    let typ = names[want.named as int].typ;
                    assert(plain_typ(typ));
                    lemma_apply_grows(st, base, o, names, typ, seq_of(want.args), (fuel - 1) as nat);
                }
            },
            Constraint::Builtin(_, call) => {
                let name = call.func->Some_0;
                if name@ != "@byte"@ {
                    let id = id_of(named, name@);
                    let args = values_of(call.args@, terms);
                    assert(plain_typ(names[id as int].typ));
                    lemma_apply_grows(st, base, o, names, names[id as int].typ, args, (fuel - 1) as nat);
                }
            },
            _ => {},
        }
        assert(grown(st, st1));
        lemma_produce_grows(st1, base, o, names, named, scope, parts, i + 1, fuel);
    }
}

/// A search for a conditional resource finds nothing in a state that
/// follows `base`, where it stops nowhere in `base`.
pub proof fn lemma_nobody<O: Oracle>(seen: State, base: State, o: &O, want: Cond)
    requires
        seen.follows(base),
        base.nobody(o, want),
    ensures
        seen.find_cond(o, want, 0) is None,
{
    seen.lemma_find_cond(o, want, 0);
    assert forall|j: int| 0 <= j < seen.cond.len() implies !seen.cond_at(o, want, j) by {
        assert(base.cond.contains(seen.cond[j]));
        let k = choose|k: int| 0 <= k < base.cond.len() && base.cond[k] == seen.cond[j];
        assert(!base.cond_at(o, want, k));
    }
}

/// What a type produced steadily can be consumed: see `lemma_duality_from`.
pub proof fn lemma_duality_apply<O: Oracle>(
    made: State,
    seen: State,
    base: State,
    pa: int,
    pf: int,
    pc: int,
    o: &O,
    names: Seq<Name>,
    fun: Fun<PosTyp>,
    args: Seq<Term>,
    fuel: nat,
)
    requires
        reflexive(o),
        grants_facts(o),
        plain_names(names),
        plain_typ(fun),
        seen.follows(base),
        steady_apply(o, names, made, base, fun, args, fuel),
        made.apply_pos(o, names, Heap::Produce, fun, args, fuel) matches Ok((end, _)) && holds_made(
            o,
            made,
            end,
            seen,
            pa,
            pf,
            pc,
        ),
    ensures
        seen.apply_pos(o, names, Heap::Consume, fun, args, fuel) == Ok::<(State, ()), ConsumeErr>(
            (
                without_made(
                    made,
                    made.apply_pos(o, names, Heap::Produce, fun, args, fuel)->Ok_0.0,
                    seen,
                    pa,
                    pf,
                    pc,
                ),
                (),
            ),
        ),
    decreases fuel, parts_len(fun) + 1, 0int,
{
    match fun.fun {
        PosTyp::Declared { named, terms, typ } => {
            let scope = bound(terms, typ.val.names@, args);
            lemma_duality_from(made, seen, base, pa, pf, pc, o, names, named, scope, typ.val.parts@, 0, fuel);
        },
        _ => {},
    }
}

/// The step of the duality at the parts of a named resource, whether they
/// are asked for by name or through a condition that is granted: what
/// production made of them between `made` and `next` is consumed from
/// `seen`, and what is left stands for what production made from `next`
/// on.
proof fn lemma_duality_unfold<O: Oracle>(
    made: State,
    next: State,
    end: State,
    seen: State,
    base: State,
    pa: int,
    pf: int,
    pc: int,
    o: &O,
    names: Seq<Name>,
    typ: Fun<PosTyp>,
    args: Seq<Term>,
    fuel: nat,
)
    requires
        reflexive(o),
        grants_facts(o),
        plain_names(names),
        plain_typ(typ),
        seen.follows(base),
        steady_apply(o, names, made, base, typ, args, fuel),
        made.apply_pos(o, names, Heap::Produce, typ, args, fuel) == Ok::<(State, ()), ConsumeErr>((next, ())),
        grown(made, next),
        grown(next, end),
        holds_made(o, made, end, seen, pa, pf, pc),
    ensures
        seen.apply_pos(o, names, Heap::Consume, typ, args, fuel) == Ok::<(State, ()), ConsumeErr>(
            (without_made(made, next, seen, pa, pf, pc), ()),
        ),
        holds_made(o, next, end, without_made(made, next, seen, pa, pf, pc), pa, pf, pc),
        without_made(made, next, seen, pa, pf, pc).follows(base),
        without_made(next, end, without_made(made, next, seen, pa, pf, pc), pa, pf, pc) == without_made(
            made,
            end,
            seen,
            pa,
            pf,
            pc,
        ),
    decreases fuel + 1, 0int, 0int,
{
    let a = made.alloc.len() as int;
    let f = made.forall.len() as int;
    let c = made.cond.len() as int;
    assert forall|q: int| made.alloc.len() <= q < next.alloc.len() implies seen.alloc[pa + (q - made.alloc.len())]
        == #[trigger] next.alloc[q] by {
        assert(end.alloc[q] == next.alloc[q]);
    }
    assert forall|q: int| made.forall.len() <= q < next.forall.len() implies seen.forall[pf + (q
        - made.forall.len())] == #[trigger] next.forall[q] by {
        assert(end.forall[q] == next.forall[q]);
    }
    assert forall|q: int| made.cond.len() <= q < next.cond.len() implies seen.cond[pc + (q - made.cond.len())]
        == #[trigger] next.cond[q] by {
        assert(end.cond[q] == next.cond[q]);
    }
    assert forall|j: int, q: int|
        0 <= j < pa && made.alloc.len() <= q < next.alloc.len() implies !#[trigger] seen.cell_at(
        o,
        next.alloc[q].ptr,
        j,
    ) by {
        assert(end.alloc[q] == next.alloc[q]);
        assert(!seen.cell_at(o, end.alloc[q].ptr, j));
    }
    assert forall|j: int, q: int|
        0 <= j < pf && made.forall.len() <= q < next.forall.len() implies !#[trigger] seen.family_at(
        o,
        next.forall[q].have,
        j,
    ) by {
        assert(end.forall[q] == next.forall[q]);
        assert(!seen.family_at(o, end.forall[q].have, j));
    }
    assert forall|j: int, q: int|
        0 <= j < pc && made.cond.len() <= q < next.cond.len() implies !#[trigger] seen.cond_at(
        o,
        next.cond[q],
        j,
    ) by {
        assert(end.cond[q] == next.cond[q]);
        assert(!seen.cond_at(o, end.cond[q], j));
    }
    assert forall|j: int| 0 <= j < next.facts.len() implies seen.facts[j] == next.facts[j] by {
        assert(end.facts[j] == next.facts[j]);
    }
    assert(holds_made(o, made, next, seen, pa, pf, pc));
    lemma_duality_apply(made, seen, base, pa, pf, pc, o, names, typ, args, fuel);
    let seen1 = without_made(made, next, seen, pa, pf, pc);
    assert forall|q: int| next.alloc.len() <= q < end.alloc.len() implies seen1.alloc[pa + (q - next.alloc.len())]
        == #[trigger] end.alloc[q] by {
        assert(seen1.alloc[pa + (q - next.alloc.len())] == seen.alloc[pa + (q - a)]);
    }
    assert forall|q: int| next.forall.len() <= q < end.forall.len() implies seen1.forall[pf + (q
        - next.forall.len())] == #[trigger] end.forall[q] by {
        assert(seen1.forall[pf + (q - next.forall.len())] == seen.forall[pf + (q - f)]);
    }
    assert forall|q: int| next.cond.len() <= q < end.cond.len() implies seen1.cond[pc + (q - next.cond.len())]
        == #[trigger] end.cond[q] by {
        assert(seen1.cond[pc + (q - next.cond.len())] == seen.cond[pc + (q - c)]);
    }
    assert forall|j: int, q: int|
        0 <= j < pa && next.alloc.len() <= q < end.alloc.len() implies !#[trigger] seen1.cell_at(
        o,
        end.alloc[q].ptr,
        j,
    ) by {
        assert(seen1.alloc[j] == seen.alloc[j]);
        assert(!seen.cell_at(o, end.alloc[q].ptr, j));
    }
    assert forall|j: int, q: int|
        0 <= j < pf && next.forall.len() <= q < end.forall.len() implies !#[trigger] seen1.family_at(
        o,
        end.forall[q].have,
        j,
    ) by {
        assert(seen1.forall[j] == seen.forall[j]);
        assert(!seen.family_at(o, end.forall[q].have, j));
    }
    assert forall|j: int, q: int|
        0 <= j < pc && next.cond.len() <= q < end.cond.len() implies !#[trigger] seen1.cond_at(
        o,
        end.cond[q],
        j,
    ) by {
        assert(seen1.cond[j] == seen.cond[j]);
        assert(!seen.cond_at(o, end.cond[q], j));
    }
    assert forall|j: int| 0 <= j < seen1.cond.len() implies base.cond.contains(#[trigger] seen1.cond[j]) by {
        if j < pc {
            assert(seen1.cond[j] == seen.cond[j]);
        } else {
            assert(seen1.cond[j] == seen.cond[j + (next.cond.len() - c)]);
        }
    }
    assert(without_made(next, end, seen1, pa, pf, pc).alloc =~= without_made(made, end, seen, pa, pf, pc).alloc);
    assert(without_made(next, end, seen1, pa, pf, pc).forall =~= without_made(made, end, seen, pa, pf, pc).forall);
    assert(without_made(next, end, seen1, pa, pf, pc).cond =~= without_made(made, end, seen, pa, pf, pc).cond);
}

/// The step of the duality at a conditional resource that production held
/// back: consumption finds it among those that wait and takes it away, and
/// what is left stands for what production made afterwards.
proof fn lemma_duality_waits<O: Oracle>(
    made: State,
    next: State,
    end: State,
    seen: State,
    base: State,
    pa: int,
    pf: int,
    pc: int,
    o: &O,
    names: Seq<Name>,
    want: Cond,
    fuel: nat,
)
    requires
        reflexive(o),
        seen.follows(base),
        next == (State { cond: made.cond.push(want), ..made }),
        grown(next, end),
        holds_made(o, made, end, seen, pa, pf, pc),
    ensures
        seen.switch(o, names, Heap::Consume, want, fuel) == Ok::<(State, ()), ConsumeErr>(
            (State { cond: seen.cond.remove(pc), ..seen }, ()),
        ),
        holds_made(o, next, end, State { cond: seen.cond.remove(pc), ..seen }, pa, pf, pc),
        (State { cond: seen.cond.remove(pc), ..seen }).follows(base),
        without_made(next, end, State { cond: seen.cond.remove(pc), ..seen }, pa, pf, pc) == without_made(
            made,
            end,
            seen,
            pa,
            pf,
            pc,
        ),
{
    let c = made.cond.len() as int;
    let seen1 = State { cond: seen.cond.remove(pc), ..seen };
    assert(next.cond[c] == want);
    assert(end.cond[c] == next.cond[c]);
    assert(seen.cond[pc + (c - c)] == end.cond[c]);
    assert(o.entails(seen.facts, equal(want.cond, want.cond)));
    lemma_all_equal_reflexive(o, seen.facts, &*want.args);
    assert(seen.cond_at(o, want, pc));
    assert forall|j: int| 0 <= j < pc implies !seen.cond_at(o, want, j) by {
        assert(!seen.cond_at(o, end.cond[c], j));
    }
    seen.lemma_find_cond(o, want, 0);
    assert(seen.find_cond(o, want, 0) == Some(pc));
    assert forall|q: int| next.cond.len() <= q < end.cond.len() implies seen1.cond[pc + (q - next.cond.len())]
        == #[trigger] end.cond[q] by {
        assert(seen1.cond[pc + (q - next.cond.len())] == seen.cond[pc + (q - c)]);
    }
    assert forall|j: int, q: int|
        0 <= j < pc && next.cond.len() <= q < end.cond.len() implies !#[trigger] seen1.cond_at(
        o,
        end.cond[q],
        j,
    ) by {
        assert(seen1.cond[j] == seen.cond[j]);
        assert(!seen.cond_at(o, end.cond[q], j));
    }
    assert forall|j: int, q: int|
        0 <= j < pa && next.alloc.len() <= q < end.alloc.len() implies !#[trigger] seen1.cell_at(
        o,
        end.alloc[q].ptr,
        j,
    ) by {
        assert(!seen.cell_at(o, end.alloc[q].ptr, j));
    }
    assert forall|j: int, q: int|
        0 <= j < pf && next.forall.len() <= q < end.forall.len() implies !#[trigger] seen1.family_at(
        o,
        end.forall[q].have,
        j,
    ) by {
        assert(!seen.family_at(o, end.forall[q].have, j));
    }
    assert forall|j: int| 0 <= j < seen1.cond.len() implies base.cond.contains(#[trigger] seen1.cond[j]) by {
        if j < pc {
            assert(seen1.cond[j] == seen.cond[j]);
        } else {
            assert(seen1.cond[j] == seen.cond[j + 1]);
        }
    }
    assert(without_made(next, end, seen1, pa, pf, pc).alloc =~= without_made(made, end, seen, pa, pf, pc).alloc);
    assert(without_made(next, end, seen1, pa, pf, pc).forall =~= without_made(made, end, seen, pa, pf, pc).forall);
    assert(without_made(next, end, seen1, pa, pf, pc).cond =~= without_made(made, end, seen, pa, pf, pc).cond);
}

/// The step of `lemma_duality_from` at a proposition.
proof fn lemma_duality_assert<O: Oracle>(
    made: State,
    seen: State,
    base: State,
    pa: int,
    pf: int,
    pc: int,
    o: &O,
    names: Seq<Name>,
    named: WeakNameList,
    terms: Rc<Scope<Term>>,
    parts: Seq<Spanned<Constraint>>,
    i: int,
    fuel: nat,
)
    requires
        reflexive(o),
        grants_facts(o),
        0 <= i,
        plain_names(names),
        forall|k: int| 0 <= k < parts.len() ==> plain(#[trigger] parts[k].val),
        seen.follows(base),
        steady_parts(o, names, made, base, named, terms, parts, i, fuel),
        made.parts(o, names, Heap::Produce, named, terms, parts, i, fuel) matches Ok((end, _)) && holds_made(
            o,
            made,
            end,
            seen,
            pa,
            pf,
            pc,
        ),
        i < parts.len(),
        parts[i].val is Assert,
    ensures
        seen.parts(o, names, Heap::Consume, named, terms, parts, i, fuel) == Ok::<
            (State, Rc<Scope<Term>>),
            ConsumeErr,
        >(
            (
                without_made(
                    made,
                    made.parts(o, names, Heap::Produce, named, terms, parts, i, fuel)->Ok_0.0,
                    seen,
                    pa,
                    pf,
                    pc,
                ),
                made.parts(o, names, Heap::Produce, named, terms, parts, i, fuel)->Ok_0.1,
            ),
        ),
    decreases fuel, parts.len() - i, 0int,
{
    let (end, scope_end) = made.parts(o, names, Heap::Produce, named, terms, parts, i, fuel)->Ok_0;
    let left = without_made(made, end, seen, pa, pf, pc);
    assert(plain(parts[i].val));
    let span = parts[i].span;
    let one = locate(made.part(o, names, Heap::Produce, named, terms, parts[i].val, span, fuel), Some(span));
    let (made1, scope) = one->Ok_0;
    assert(steady_part(o, names, made, base, named, terms, parts[i].val, span, fuel));
    assert(steady_parts(o, names, made1, base, named, scope, parts, i + 1, fuel));
    lemma_produce_grows(made, base, o, names, named, terms, parts, i, fuel);
    let a = made.alloc.len() as int;
    let f = made.forall.len() as int;
    let c = made.cond.len() as int;
    match parts[i].val {
        Constraint::Assert(p) => {
            let phi = prop_of(p, terms);
            let pushed = State { facts: made.facts.push(phi), ..made };
            assert(settled(o, names, pushed, fuel));
            reveal(settled);
            assert(made1 == pushed);
            lemma_produce_grows(made1, base, o, names, named, scope, parts, i + 1, fuel);
            assert(end.facts[made.facts.len() as int] == phi);
            assert(seen.facts[made.facts.len() as int] == phi);
            assert(o.entails(seen.facts, phi));
            let seen1 = seen;
            assert(seen1.follows(base));
            assert(holds_made(o, made1, end, seen1, pa, pf, pc));
            lemma_duality_from(made1, seen1, base, pa, pf, pc, o, names, named, scope, parts, i + 1, fuel);
            assert(without_made(made1, end, seen1, pa, pf, pc).alloc =~= left.alloc);
            assert(without_made(made1, end, seen1, pa, pf, pc).forall =~= left.forall);
            assert(without_made(made1, end, seen1, pa, pf, pc).cond =~= left.cond);
            assert(without_made(made1, end, seen1, pa, pf, pc) == left);
            assert(scope == terms);
            assert(seen.part(o, names, Heap::Consume, named, terms, parts[i].val, span, fuel) == Ok::<
                (State, Rc<Scope<Term>>),
                ConsumeErr,
            >((seen, terms)));
        },
        _ => {},
    }
}

/// The step of `lemma_duality_from` at a family.
proof fn lemma_duality_family<O: Oracle>(
    made: State,
    seen: State,
    base: State,
    pa: int,
    pf: int,
    pc: int,
    o: &O,
    names: Seq<Name>,
    named: WeakNameList,
    terms: Rc<Scope<Term>>,
    parts: Seq<Spanned<Constraint>>,
    i: int,
    fuel: nat,
)
    requires
        reflexive(o),
        grants_facts(o),
        0 <= i,
        plain_names(names),
        forall|k: int| 0 <= k < parts.len() ==> plain(#[trigger] parts[k].val),
        seen.follows(base),
        steady_parts(o, names, made, base, named, terms, parts, i, fuel),
        made.parts(o, names, Heap::Produce, named, terms, parts, i, fuel) matches Ok((end, _)) && holds_made(
            o,
            made,
            end,
            seen,
            pa,
            pf,
            pc,
        ),
        i < parts.len(),
        parts[i].val is Forall,
    ensures
        seen.parts(o, names, Heap::Consume, named, terms, parts, i, fuel) == Ok::<
            (State, Rc<Scope<Term>>),
            ConsumeErr,
        >(
            (
                without_made(
                    made,
                    made.parts(o, names, Heap::Produce, named, terms, parts, i, fuel)->Ok_0.0,
                    seen,
                    pa,
                    pf,
                    pc,
                ),
                made.parts(o, names, Heap::Produce, named, terms, parts, i, fuel)->Ok_0.1,
            ),
        ),
    decreases fuel, parts.len() - i, 0int,
{
    let (end, scope_end) = made.parts(o, names, Heap::Produce, named, terms, parts, i, fuel)->Ok_0;
    let left = without_made(made, end, seen, pa, pf, pc);
    assert(plain(parts[i].val));
    let span = parts[i].span;
    let one = locate(made.part(o, names, Heap::Produce, named, terms, parts[i].val, span, fuel), Some(span));
    let (made1, scope) = one->Ok_0;
    assert(steady_part(o, names, made, base, named, terms, parts[i].val, span, fuel));
    assert(steady_parts(o, names, made1, base, named, scope, parts, i + 1, fuel));
    lemma_produce_grows(made, base, o, names, named, terms, parts, i, fuel);
    let a = made.alloc.len() as int;
    let f = made.forall.len() as int;
    let c = made.cond.len() as int;
    match parts[i].val {
        Constraint::Forall(all) => {
            let want = family_of(all, named, terms, span);
            let held = CtxForall { have: want, taken: Rc::new(List::Nil) };
            lemma_produce_grows(made1, base, o, names, named, scope, parts, i + 1, fuel);
            assert(made1.forall[f] == held);
            assert(end.forall[f] == made1.forall[f]);
            assert(seen.forall[pf + (f - f)] == end.forall[f]);
            assert(o.entails(seen.facts, equal(want.mask.body, want.mask.body)));
            assert(seen.family_at(o, want, pf));
            assert forall|j: int| 0 <= j < pf implies !seen.family_at(o, want, j) by {
                assert(!seen.family_at(o, end.forall[f].have, j));
            }
            seen.lemma_find_forall(o, want, 0);
            assert(seen.find_forall(o, want, 0) == Some(pf));
            let seen1 = State { forall: seen.forall.remove(pf), ..seen };
            assert forall|q: int| made1.forall.len() <= q < end.forall.len() implies seen1.forall[pf + (q
                - made1.forall.len())] == #[trigger] end.forall[q] by {
                assert(seen1.forall[pf + (q - made1.forall.len())] == seen.forall[pf + (q - f)]);
            }
            assert forall|j: int, q: int|
                0 <= j < pf && made1.forall.len() <= q < end.forall.len() implies !#[trigger] seen1.family_at(
                o,
                end.forall[q].have,
                j,
            ) by {
                assert(seen1.forall[j] == seen.forall[j]);
                assert(!seen.family_at(o, end.forall[q].have, j));
            }
            assert forall|j: int, q: int|
                0 <= j < pa && made1.alloc.len() <= q < end.alloc.len() implies !#[trigger] seen1.cell_at(
                o,
                end.alloc[q].ptr,
                j,
            ) by {
                assert(seen1.alloc[j] == seen.alloc[j]);
                assert(!seen.cell_at(o, end.alloc[q].ptr, j));
            }
            assert forall|j: int, q: int|
                0 <= j < pc && made1.cond.len() <= q < end.cond.len() implies !#[trigger] seen1.cond_at(
                o,
                end.cond[q],
                j,
            ) by {
                assert(seen1.cond[j] == seen.cond[j]);
                assert(!seen.cond_at(o, end.cond[q], j));
            }
            assert(seen1.take_cells(o, List::Nil) == Ok::<(State, ()), ErrorKind>((seen1, ())));
            assert(seen.consume_forall(o, want) == Ok::<(State, ()), ErrorKind>((seen1, ())));
            assert(seen1.follows(base));
            assert(holds_made(o, made1, end, seen1, pa, pf, pc));
            lemma_duality_from(made1, seen1, base, pa, pf, pc, o, names, named, scope, parts, i + 1, fuel);
            assert(without_made(made1, end, seen1, pa, pf, pc).alloc =~= left.alloc);
            assert(without_made(made1, end, seen1, pa, pf, pc).forall =~= left.forall);
            assert(without_made(made1, end, seen1, pa, pf, pc).cond =~= left.cond);
            assert(without_made(made1, end, seen1, pa, pf, pc) == left);
            assert(scope == terms);
            assert(seen.part(o, names, Heap::Consume, named, terms, parts[i].val, span, fuel) == Ok::<
                (State, Rc<Scope<Term>>),
                ConsumeErr,
            >((seen1, terms)));
        },
        _ => {},
    }
}

/// The step of `lemma_duality_from` at a byte cell.
proof fn lemma_duality_byte<O: Oracle>(
    made: State,
    seen: State,
    base: State,
    pa: int,
    pf: int,
    pc: int,
    o: &O,
    names: Seq<Name>,
    named: WeakNameList,
    terms: Rc<Scope<Term>>,
    parts: Seq<Spanned<Constraint>>,
    i: int,
    fuel: nat,
)
    requires
        reflexive(o),
        grants_facts(o),
        0 <= i,
        plain_names(names),
        forall|k: int| 0 <= k < parts.len() ==> plain(#[trigger] parts[k].val),
        seen.follows(base),
        steady_parts(o, names, made, base, named, terms, parts, i, fuel),
        made.parts(o, names, Heap::Produce, named, terms, parts, i, fuel) matches Ok((end, _)) && holds_made(
            o,
            made,
            end,
            seen,
            pa,
            pf,
            pc,
        ),
        i < parts.len(),
        parts[i].val matches Constraint::Builtin(_, call) && (call.func matches Some(name) && name@ == "@byte"@),
    ensures
        seen.parts(o, names, Heap::Consume, named, terms, parts, i, fuel) == Ok::<
            (State, Rc<Scope<Term>>),
            ConsumeErr,
        >(
            (
                without_made(
                    made,
                    made.parts(o, names, Heap::Produce, named, terms, parts, i, fuel)->Ok_0.0,
                    seen,
                    pa,
                    pf,
                    pc,
                ),
                made.parts(o, names, Heap::Produce, named, terms, parts, i, fuel)->Ok_0.1,
            ),
        ),
    decreases fuel, parts.len() - i, 0int,
{
    let (end, scope_end) = made.parts(o, names, Heap::Produce, named, terms, parts, i, fuel)->Ok_0;
    let left = without_made(made, end, seen, pa, pf, pc);
    assert(plain(parts[i].val));
    let span = parts[i].span;
    let one = locate(made.part(o, names, Heap::Produce, named, terms, parts[i].val, span, fuel), Some(span));
    let (made1, scope) = one->Ok_0;
    assert(steady_part(o, names, made, base, named, terms, parts[i].val, span, fuel));
    assert(steady_parts(o, names, made1, base, named, scope, parts, i + 1, fuel));
    lemma_produce_grows(made, base, o, names, named, terms, parts, i, fuel);
    let a = made.alloc.len() as int;
    let f = made.forall.len() as int;
    let c = made.cond.len() as int;
    match parts[i].val {
        Constraint::Builtin(bound, call) => {
            lemma_produce_grows(made1, base, o, names, named, scope, parts, i + 1, fuel);
            let ptr = value_of(call.args@[0], terms);
            let value = Term::UVar(made.univ, 32);
            assert(made1.alloc[a] == (Cell { ptr, value }));
            assert(end.alloc[a] == made1.alloc[a]);
            assert(seen.alloc[pa + (a - a)] == end.alloc[a]);
            assert(o.entails(seen.facts, equal(ptr, ptr)));
            assert(seen.cell_at(o, ptr, pa));
            assert forall|j: int| 0 <= j < pa implies !seen.cell_at(o, ptr, j) by {
                assert(!seen.cell_at(o, end.alloc[a].ptr, j));
            }
            seen.lemma_find_cell(o, ptr, 0);
            assert(seen.find_cell(o, ptr, 0) == Some(pa));
            let seen1 = State { alloc: seen.alloc.remove(pa), ..seen };
            assert forall|q: int| made1.alloc.len() <= q < end.alloc.len() implies seen1.alloc[pa + (q
                - made1.alloc.len())] == #[trigger] end.alloc[q] by {
                assert(seen1.alloc[pa + (q - made1.alloc.len())] == seen.alloc[pa + (q - a)]);
            }
            assert forall|j: int, q: int|
                0 <= j < pa && made1.alloc.len() <= q < end.alloc.len() implies !#[trigger] seen1.cell_at(
                o,
                end.alloc[q].ptr,
                j,
            ) by {
                assert(seen1.alloc[j] == seen.alloc[j]);
                assert(!seen.cell_at(o, end.alloc[q].ptr, j));
            }
            assert forall|j: int, q: int|
                0 <= j < pf && made1.forall.len() <= q < end.forall.len() implies !#[trigger] seen1.family_at(
                o,
                end.forall[q].have,
                j,
            ) by {
                assert(seen1.forall[j] == seen.forall[j]);
                assert(!seen.family_at(o, end.forall[q].have, j));
            }
            assert forall|j: int, q: int|
                0 <= j < pc && made1.cond.len() <= q < end.cond.len() implies !#[trigger] seen1.cond_at(
                o,
                end.cond[q],
                j,
            ) by {
                assert(seen1.cond[j] == seen.cond[j]);
                assert(!seen.cond_at(o, end.cond[q], j));
            }
            assert(seen1.follows(base));
            assert(holds_made(o, made1, end, seen1, pa, pf, pc));
            lemma_duality_from(made1, seen1, base, pa, pf, pc, o, names, named, scope, parts, i + 1, fuel);
            assert(without_made(made1, end, seen1, pa, pf, pc).alloc =~= left.alloc);
            assert(without_made(made1, end, seen1, pa, pf, pc).forall =~= left.forall);
            assert(without_made(made1, end, seen1, pa, pf, pc).cond =~= left.cond);
            assert(without_made(made1, end, seen1, pa, pf, pc) == left);
            assert(seen.consume_owned(o, ptr, Sort::Nat) == Ok::<(State, Term), ErrorKind>((seen1, value)));
            assert(seen.part(o, names, Heap::Consume, named, terms, parts[i].val, span, fuel) == Ok::<
                (State, Rc<Scope<Term>>),
                ConsumeErr,
            >((seen1, scope)));
        },
        _ => {},
    }
}

/// The step of `lemma_duality_from` at the parts of a named resource.
proof fn lemma_duality_named<O: Oracle>(
    made: State,
    seen: State,
    base: State,
    pa: int,
    pf: int,
    pc: int,
    o: &O,
    names: Seq<Name>,
    named: WeakNameList,
    terms: Rc<Scope<Term>>,
    parts: Seq<Spanned<Constraint>>,
    i: int,
    fuel: nat,
)
    requires
        reflexive(o),
        grants_facts(o),
        0 <= i,
        plain_names(names),
        forall|k: int| 0 <= k < parts.len() ==> plain(#[trigger] parts[k].val),
        seen.follows(base),
        steady_parts(o, names, made, base, named, terms, parts, i, fuel),
        made.parts(o, names, Heap::Produce, named, terms, parts, i, fuel) matches Ok((end, _)) && holds_made(
            o,
            made,
            end,
            seen,
            pa,
            pf,
            pc,
        ),
        i < parts.len(),
        parts[i].val matches Constraint::Builtin(_, call) && (call.func matches Some(name) && name@ != "@byte"@),
    ensures
        seen.parts(o, names, Heap::Consume, named, terms, parts, i, fuel) == Ok::<
            (State, Rc<Scope<Term>>),
            ConsumeErr,
        >(
            (
                without_made(
                    made,
                    made.parts(o, names, Heap::Produce, named, terms, parts, i, fuel)->Ok_0.0,
                    seen,
                    pa,
                    pf,
                    pc,
                ),
                made.parts(o, names, Heap::Produce, named, terms, parts, i, fuel)->Ok_0.1,
            ),
        ),
    decreases fuel, parts.len() - i, 0int,
{
    let (end, scope_end) = made.parts(o, names, Heap::Produce, named, terms, parts, i, fuel)->Ok_0;
    let left = without_made(made, end, seen, pa, pf, pc);
    assert(plain(parts[i].val));
    let span = parts[i].span;
    let one = locate(made.part(o, names, Heap::Produce, named, terms, parts[i].val, span, fuel), Some(span));
    let (made1, scope) = one->Ok_0;
    assert(steady_part(o, names, made, base, named, terms, parts[i].val, span, fuel));
    assert(steady_parts(o, names, made1, base, named, scope, parts, i + 1, fuel));
    lemma_produce_grows(made, base, o, names, named, terms, parts, i, fuel);
    let a = made.alloc.len() as int;
    let f = made.forall.len() as int;
    let c = made.cond.len() as int;
    match parts[i].val {
        Constraint::Builtin(bound, call) => {
            let name = call.func->Some_0;
            let id = id_of(named, name@);
            let args = values_of(call.args@, terms);
            let typ = names[id as int].typ;
            assert(plain_typ(typ));
            assert(steady_unfold(o, names, made, base, id, args, fuel));
            assert(made.apply_pos(o, names, Heap::Produce, typ, args, (fuel - 1) as nat) == Ok::<
                (State, ()),
                ConsumeErr,
            >((made1, ())));
            lemma_apply_grows(made, base, o, names, typ, args, (fuel - 1) as nat);
            lemma_produce_grows(made1, base, o, names, named, scope, parts, i + 1, fuel);
            lemma_duality_unfold(made, made1, end, seen, base, pa, pf, pc, o, names, typ, args, (fuel - 1) as nat);
            let seen1 = without_made(made, made1, seen, pa, pf, pc);
            assert(scope == terms);
            assert(seen.part(o, names, Heap::Consume, named, terms, parts[i].val, span, fuel) == Ok::<
                (State, Rc<Scope<Term>>),
                ConsumeErr,
            >((seen1, terms)));
            lemma_duality_from(made1, seen1, base, pa, pf, pc, o, names, named, scope, parts, i + 1, fuel);
        },
        _ => {},
    }
}

/// The step of `lemma_duality_from` at a conditional resource.
proof fn lemma_duality_switch<O: Oracle>(
    made: State,
    seen: State,
    base: State,
    pa: int,
    pf: int,
    pc: int,
    o: &O,
    names: Seq<Name>,
    named: WeakNameList,
    terms: Rc<Scope<Term>>,
    parts: Seq<Spanned<Constraint>>,
    i: int,
    fuel: nat,
)
    requires
        reflexive(o),
        grants_facts(o),
        0 <= i,
        plain_names(names),
        forall|k: int| 0 <= k < parts.len() ==> plain(#[trigger] parts[k].val),
        seen.follows(base),
        steady_parts(o, names, made, base, named, terms, parts, i, fuel),
        made.parts(o, names, Heap::Produce, named, terms, parts, i, fuel) matches Ok((end, _)) && holds_made(
            o,
            made,
            end,
            seen,
            pa,
            pf,
            pc,
        ),
        i < parts.len(),
        parts[i].val is Switch,
    ensures
        seen.parts(o, names, Heap::Consume, named, terms, parts, i, fuel) == Ok::<
            (State, Rc<Scope<Term>>),
            ConsumeErr,
        >(
            (
                without_made(
                    made,
                    made.parts(o, names, Heap::Produce, named, terms, parts, i, fuel)->Ok_0.0,
                    seen,
                    pa,
                    pf,
                    pc,
                ),
                made.parts(o, names, Heap::Produce, named, terms, parts, i, fuel)->Ok_0.1,
            ),
        ),
    decreases fuel, parts.len() - i, 0int,
{
    let (end, scope_end) = made.parts(o, names, Heap::Produce, named, terms, parts, i, fuel)->Ok_0;
    let left = without_made(made, end, seen, pa, pf, pc);
    assert(plain(parts[i].val));
    let span = parts[i].span;
    let one = locate(made.part(o, names, Heap::Produce, named, terms, parts[i].val, span, fuel), Some(span));
    let (made1, scope) = one->Ok_0;
    assert(steady_part(o, names, made, base, named, terms, parts[i].val, span, fuel));
    assert(steady_parts(o, names, made1, base, named, scope, parts, i + 1, fuel));
    lemma_produce_grows(made, base, o, names, named, terms, parts, i, fuel);
    let a = made.alloc.len() as int;
    let f = made.forall.len() as int;
    let c = made.cond.len() as int;
    match parts[i].val {
        Constraint::Switch(w) => {
            let want = cond_of(w, named, terms, span);
            assert(cond_ok(w, named, terms));
            assert(base.facts == seen.facts);
            assert(scope == terms);
            if o.entails(made.facts, want.cond) {
                lemma_nobody(seen, base, o, want);
                let id = want.named;
                let args = seq_of(want.args);
                let typ = names[id as int].typ;
                assert(plain_typ(typ));
                assert(steady_unfold(o, names, made, base, id, args, fuel));
                assert(made.apply_pos(o, names, Heap::Produce, typ, args, (fuel - 1) as nat) == Ok::<
                    (State, ()),
                    ConsumeErr,
                >((made1, ())));
                lemma_apply_grows(made, base, o, names, typ, args, (fuel - 1) as nat);
                lemma_produce_grows(made1, base, o, names, named, scope, parts, i + 1, fuel);
                lemma_duality_unfold(made, made1, end, seen, base, pa, pf, pc, o, names, typ, args, (fuel - 1) as nat);
                let seen1 = without_made(made, made1, seen, pa, pf, pc);
                assert(seen.switch(o, names, Heap::Consume, want, fuel) == Ok::<(State, ()), ConsumeErr>(
                    (seen1, ()),
                ));
                assert(seen.part(o, names, Heap::Consume, named, terms, parts[i].val, span, fuel) == Ok::<
                    (State, Rc<Scope<Term>>),
                    ConsumeErr,
                >((seen1, terms)));
                lemma_duality_from(made1, seen1, base, pa, pf, pc, o, names, named, scope, parts, i + 1, fuel);
            } else if o.entails(made.facts, denied(want.cond)) {
                lemma_nobody(seen, base, o, want);
                assert(made1 == made);
                assert(seen.switch(o, names, Heap::Consume, want, fuel) == Ok::<(State, ()), ConsumeErr>((seen, ())));
                assert(seen.part(o, names, Heap::Consume, named, terms, parts[i].val, span, fuel) == Ok::<
                    (State, Rc<Scope<Term>>),
                    ConsumeErr,
                >((seen, terms)));
                lemma_duality_from(made1, seen, base, pa, pf, pc, o, names, named, scope, parts, i + 1, fuel);
            } else {
                assert(made1 == (State { cond: made.cond.push(want), ..made }));
                lemma_produce_grows(made1, base, o, names, named, scope, parts, i + 1, fuel);
                lemma_duality_waits(made, made1, end, seen, base, pa, pf, pc, o, names, want, fuel);
                let seen1 = State { cond: seen.cond.remove(pc), ..seen };
                assert(seen.part(o, names, Heap::Consume, named, terms, parts[i].val, span, fuel) == Ok::<
                    (State, Rc<Scope<Term>>),
                    ConsumeErr,
                >((seen1, terms)));
                lemma_duality_from(made1, seen1, base, pa, pf, pc, o, names, named, scope, parts, i + 1, fuel);
            }
        },
        _ => {},
    }
}

/// The step of `lemma_duality_from` at a function obligation.
proof fn lemma_duality_func<O: Oracle>(
    made: State,
    seen: State,
    base: State,
    pa: int,
    pf: int,
    pc: int,
    o: &O,
    names: Seq<Name>,
    named: WeakNameList,
    terms: Rc<Scope<Term>>,
    parts: Seq<Spanned<Constraint>>,
    i: int,
    fuel: nat,
)
    requires
        reflexive(o),
        grants_facts(o),
        0 <= i,
        plain_names(names),
        forall|k: int| 0 <= k < parts.len() ==> plain(#[trigger] parts[k].val),
        seen.follows(base),
        steady_parts(o, names, made, base, named, terms, parts, i, fuel),
        made.parts(o, names, Heap::Produce, named, terms, parts, i, fuel) matches Ok((end, _)) && holds_made(
            o,
            made,
            end,
            seen,
            pa,
            pf,
            pc,
        ),
        i < parts.len(),
        parts[i].val is Func,
    ensures
        seen.parts(o, names, Heap::Consume, named, terms, parts, i, fuel) == Ok::<
            (State, Rc<Scope<Term>>),
            ConsumeErr,
        >(
            (
                without_made(
                    made,
                    made.parts(o, names, Heap::Produce, named, terms, parts, i, fuel)->Ok_0.0,
                    seen,
                    pa,
                    pf,
                    pc,
                ),
                made.parts(o, names, Heap::Produce, named, terms, parts, i, fuel)->Ok_0.1,
            ),
        ),
    decreases fuel, parts.len() - i, 0int,
{
    let (end, scope_end) = made.parts(o, names, Heap::Produce, named, terms, parts, i, fuel)->Ok_0;
    let left = without_made(made, end, seen, pa, pf, pc);
    assert(plain(parts[i].val));
    let span = parts[i].span;
    let one = locate(made.part(o, names, Heap::Produce, named, terms, parts[i].val, span, fuel), Some(span));
    let (made1, scope) = one->Ok_0;
    assert(steady_part(o, names, made, base, named, terms, parts[i].val, span, fuel));
    assert(steady_parts(o, names, made1, base, named, scope, parts, i + 1, fuel));
    lemma_produce_grows(made, base, o, names, named, terms, parts, i, fuel);
    let a = made.alloc.len() as int;
    let f = made.forall.len() as int;
    let c = made.cond.len() as int;
    match parts[i].val {
        Constraint::Func(v, typ) => {
            let ptr = value_of(v, terms);
            let want = signature(named, terms, typ);
            assert(func_met(o, names, base, ptr, want, fuel));
            reveal(func_met);
            lemma_find_func_same(seen, base, o, ptr, 0);
            assert(seen.without_alloc() == base.without_alloc());
            assert(seen.func(o, names, Heap::Consume, ptr, want, fuel) == Ok::<(State, ()), ConsumeErr>((seen, ())));
            lemma_produce_grows(made1, base, o, names, named, scope, parts, i + 1, fuel);
            let seen1 = seen;
            assert(seen1.follows(base));
            assert(holds_made(o, made1, end, seen1, pa, pf, pc));
            lemma_duality_from(made1, seen1, base, pa, pf, pc, o, names, named, scope, parts, i + 1, fuel);
            assert(without_made(made1, end, seen1, pa, pf, pc).alloc =~= left.alloc);
            assert(without_made(made1, end, seen1, pa, pf, pc).forall =~= left.forall);
            assert(without_made(made1, end, seen1, pa, pf, pc).cond =~= left.cond);
            assert(without_made(made1, end, seen1, pa, pf, pc) == left);
            assert(scope == terms);
            assert(seen.part(o, names, Heap::Consume, named, terms, parts[i].val, span, fuel) == Ok::<
                (State, Rc<Scope<Term>>),
                ConsumeErr,
            >((seen, terms)));
        },
        _ => {},
    }
}

/// What was produced can be consumed. Let obligations be produced in a
/// context steadily, one after the other from position `i` on. Then a
/// context that has the facts that production ended with, and that holds
/// the cells, the families and the conditional resources that these
/// obligations produced, meets the same obligations by consumption,
/// provided that the oracle grants that a term equals itself and grants
/// every fact. The context may hold other resources before and behind those
/// that were produced, as long as none before them can be taken for one of
/// them. Consumption binds every name to the very term that production
/// bound it to, takes what production made, and leaves the rest.
pub proof fn lemma_duality_from<O: Oracle>(
    made: State,
    seen: State,
    base: State,
    pa: int,
    pf: int,
    pc: int,
    o: &O,
    names: Seq<Name>,
    named: WeakNameList,
    terms: Rc<Scope<Term>>,
    parts: Seq<Spanned<Constraint>>,
    i: int,
    fuel: nat,
)
    requires
        reflexive(o),
        grants_facts(o),
        0 <= i,
        plain_names(names),
        forall|k: int| 0 <= k < parts.len() ==> plain(#[trigger] parts[k].val),
        seen.follows(base),
        steady_parts(o, names, made, base, named, terms, parts, i, fuel),
        made.parts(o, names, Heap::Produce, named, terms, parts, i, fuel) matches Ok((end, _)) && holds_made(
            o,
            made,
            end,
            seen,
            pa,
            pf,
            pc,
        ),
    ensures
        seen.parts(o, names, Heap::Consume, named, terms, parts, i, fuel) == Ok::<
            (State, Rc<Scope<Term>>),
            ConsumeErr,
        >(
            (
                without_made(
                    made,
                    made.parts(o, names, Heap::Produce, named, terms, parts, i, fuel)->Ok_0.0,
                    seen,
                    pa,
                    pf,
                    pc,
                ),
                made.parts(o, names, Heap::Produce, named, terms, parts, i, fuel)->Ok_0.1,
            ),
        ),
    decreases fuel, parts.len() - i, 1int,
{
    if i < parts.len() {
        assert(plain(parts[i].val));
        match parts[i].val {
            Constraint::Assert(_) => {
                lemma_duality_assert(made, seen, base, pa, pf, pc, o, names, named, terms, parts, i, fuel);
            },
            Constraint::Forall(_) => {
                lemma_duality_family(made, seen, base, pa, pf, pc, o, names, named, terms, parts, i, fuel);
            },
            Constraint::Switch(_) => {
                lemma_duality_switch(made, seen, base, pa, pf, pc, o, names, named, terms, parts, i, fuel);
            },
            Constraint::Func(_, _) => {
                lemma_duality_func(made, seen, base, pa, pf, pc, o, names, named, terms, parts, i, fuel);
            },
            Constraint::Builtin(_, call) => {
                if call.func->Some_0@ == "@byte"@ {
                    lemma_duality_byte(made, seen, base, pa, pf, pc, o, names, named, terms, parts, i, fuel);
                } else {
                    lemma_duality_named(made, seen, base, pa, pf, pc, o, names, named, terms, parts, i, fuel);
                }
            },
        }
    } else {
        let end = made;
        let left = without_made(made, end, seen, pa, pf, pc);
        assert(left.alloc =~= seen.alloc);
        assert(left.forall =~= seen.forall);
        assert(left.cond =~= seen.cond);
    }
}

/// Whether nothing that a state held before can be taken for what was made
/// since: no cell of `st` is granted, under the facts of `made`, to be at
/// the address of a cell that `made` holds beyond those of `st`; a search
/// for a family that `made` holds beyond those of `st` stops at no family
/// of `st`; and a search for a conditional resource that `made` holds
/// beyond those of `st` stops at none of `st`.
pub open spec fn apart<O: Oracle>(o: &O, st: State, made: State) -> bool {
    &&& forall|j: int, q: int|
        0 <= j < st.alloc.len() && st.alloc.len() <= q < made.alloc.len() ==> !#[trigger] made.cell_at(
            o,
            made.alloc[q].ptr,
            j,
        )
    &&& forall|j: int, q: int|
        0 <= j < st.forall.len() && st.forall.len() <= q < made.forall.len() ==> !#[trigger] made.family_at(
            o,
            made.forall[q].have,
            j,
        )
    &&& forall|j: int, q: int|
        0 <= j < st.cond.len() && st.cond.len() <= q < made.cond.len() ==> !#[trigger] made.cond_at(
            o,
            made.cond[q],
            j,
        )
}

/// What a type produces, it can consume. Let a type of the surface syntax
/// be applied to terms by production, steadily: no proposition decides a
/// conditional resource that waits, every condition that is decided is
/// decided alike on both sides, and every function obligation is met by
/// what is known in the end. Let nothing that the context held before be
/// taken for what was made: its cells are at addresses not provably equal
/// to those of the cells made, and its families and conditional resources
/// are not provably those made. Then the context that production leaves
/// meets the same type at the same terms by consumption, provided that the
/// oracle grants that a term equals itself and grants every fact; and
/// consumption takes every cell, every family and every conditional
/// resource that production made, and leaves what the context held before.
pub proof fn lemma_heap_duality<O: Oracle>(
    st: State,
    o: &O,
    names: Seq<Name>,
    fun: Fun<PosTyp>,
    args: Seq<Term>,
    fuel: nat,
)
    requires
        reflexive(o),
        grants_facts(o),
        plain_names(names),
        plain_typ(fun),
        st.apply_pos(o, names, Heap::Produce, fun, args, fuel) matches Ok((made, _)) && apart(o, st, made)
            && steady_apply(o, names, st, made.bare(), fun, args, fuel),
    ensures
        st.apply_pos(o, names, Heap::Produce, fun, args, fuel) matches Ok((made, _)) && made.apply_pos(
            o,
            names,
            Heap::Consume,
            fun,
            args,
            fuel,
        ) == Ok::<(State, ()), ConsumeErr>(
            (State { alloc: st.alloc, forall: st.forall, cond: st.cond, ..made }, ()),
        ),
{
    let (made, _) = st.apply_pos(o, names, Heap::Produce, fun, args, fuel)->Ok_0;
    let pa = st.alloc.len() as int;
    let pf = st.forall.len() as int;
    let pc = st.cond.len() as int;
    lemma_apply_grows(st, made.bare(), o, names, fun, args, fuel);
    assert forall|j: int| 0 <= j < made.cond.len() implies made.bare().cond.contains(#[trigger] made.cond[j]) by {
        assert(made.bare().cond[j] == made.cond[j]);
    }
    assert(made.follows(made.bare()));
    assert(holds_made(o, st, made, made, pa, pf, pc));
    lemma_duality_apply(st, made, made.bare(), pa, pf, pc, o, names, fun, args, fuel);
    assert(without_made(st, made, made, pa, pf, pc).alloc =~= st.alloc);
    assert(without_made(st, made, made, pa, pf, pc).forall =~= st.forall);
    assert(without_made(st, made, made, pa, pf, pc).cond =~= st.cond);
}

/// A type gives what it asks for. A type of the surface syntax whose
/// obligations can be produced steadily is a subtype of itself in every
/// context that holds nothing that can be taken for what the type
/// produces, provided that the oracle grants that a term equals itself and
/// grants every fact. So a jump whose label returns the type that is
/// expected is accepted.
pub proof fn lemma_subtype_reflexive<O: Oracle>(st: State, o: &O, names: Seq<Name>, p: Fun<PosTyp>, fuel: nat)
    requires
        reflexive(o),
        grants_facts(o),
        plain_names(names),
        plain_typ(p),
        st.fresh(p.arity()) matches Some((ready, vars)) && (ready.apply_pos(
            o,
            names,
            Heap::Produce,
            p,
            vars,
            fuel,
        ) matches Ok((made, _)) && apart(o, ready, made) && steady_apply(
            o,
            names,
            ready,
            made.bare(),
            p,
            vars,
            fuel,
        )),
    ensures
        st.sub_pos(o, names, p, p, fuel) == Ok::<(), ConsumeErr>(()),
{
    let (ready, vars) = st.fresh(p.arity())->Some_0;
    lemma_heap_duality(ready, o, names, p, vars, fuel);
}

/// A failure to meet the obligations of a type of the surface syntax has a
/// place.
pub proof fn lemma_parts_place<O: Oracle>(
    st: State,
    o: &O,
    names: Seq<Name>,
    heap: Heap,
    named: WeakNameList,
    terms: Rc<Scope<Term>>,
    parts: Seq<Spanned<Constraint>>,
    i: int,
    fuel: nat,
)
    requires
        0 <= i,
    ensures
        st.parts(o, names, heap, named, terms, parts, i, fuel) matches Err(e) ==> e.span is Some,
    decreases parts.len() - i,
{
    if i < parts.len() {
        let one = locate(
            st.part(o, names, heap, named, terms, parts[i].val, parts[i].span, fuel),
            Some(parts[i].span),
        );
        if let Ok((st1, scope)) = one {
            lemma_parts_place(st1, o, names, heap, named, scope, parts, i + 1, fuel);
        }
    }
}

/// A failure to take the arguments of a signature for granted has a
/// place, where the signature is written in the surface syntax and has a
/// place itself.
pub proof fn lemma_extract_place<O: Oracle>(st: State, sess: &Session<O>, n: Fun<NegTyp>)
    requires
        n.span is Some,
        n.fun is Declared,
    ensures
        st.extract(sess, n) matches Err(e) ==> e.span is Some,
{
    match n.fun {
        NegTyp::Declared { named, terms, args, ret } => {
            if let Some((ready, vars)) = st.fresh(n.arity()) {
                lemma_parts_place(
                    ready,
                    &sess.oracle,
                    sess.names@,
                    Heap::Produce,
                    named,
                    bound(terms, args.val.names@, vars),
                    args.val.parts@,
                    0,
                    sess.depth as nat,
                );
            }
        },
        _ => {},
    }
}

/// A lambda that has no expression fails at a place.
pub proof fn lemma_expr_place(l: Lambda, args: Seq<Term>, own: Fun<NegTyp>)
    ensures
        l.expr(args, own) matches Err(e) ==> e.span is Some,
{
}

/// Every failure of the check of a function has a place in the source
/// text, where the signature of the function is written in the surface
/// syntax and has a place itself.
pub proof fn lemma_failure_has_place<O: Oracle>(st: State, sess: &Session<O>, l: Lambda, n: Fun<NegTyp>)
    requires
        n.span is Some,
        n.fun is Declared,
    ensures
        st.check_expr(sess, l, n) matches Err(e) ==> e.span is Some,
{
    lemma_extract_place(st, sess, n);
    if let Ok((ready, (terms, ret))) = st.extract(sess, n) {
        lemma_expr_place(l, terms, n);
        if let Ok(e) = l.expr(terms, n) {
            assert(st.check_expr(sess, l, n) == locate(ready.check_expr_pos(sess, e, ret), Some(l.span)));
        }
    }
}

/// Whether every branch of a match on `term`, from branch `i` on, passes
/// when it is checked alone from the state in which the match is met.
pub open spec fn branches_pass<O: Oracle>(
    st: State,
    sess: &Session<O>,
    term: Term,
    pats: List<Lambda>,
    i: nat,
    p: Fun<PosTyp>,
) -> bool
    decreases pats,
{
    match pats {
        List::Nil => true,
        List::Cons(l, rest) => i <= i64::MAX && i < usize::MAX && branch_verdict(
            st,
            sess,
            term,
            l,
            i,
            *rest is Nil,
            p,
        ) is Ok && branches_pass(st, sess, term, *rest, i + 1, p),
    }
}

/// The branches of a match do not see one another, however many there are.
/// A match passes exactly where each of its branches passes when it is
/// checked alone from the state in which the match is met: what one branch
/// consumes is still there for every other.
pub proof fn lemma_branches_isolated<O: Oracle>(
    st: State,
    sess: &Session<O>,
    term: Term,
    pats: &List<Lambda>,
    i: nat,
    p: Fun<PosTyp>,
)
    ensures
        st.check_arms(sess, term, *pats, i, p) is Ok <==> branches_pass(st, sess, term, *pats, i, p),
    decreases pats,
{
    match pats {
        List::Nil => {},
        List::Cons(l, rest) => {
            lemma_branches_isolated(st, sess, term, &**rest, i + 1, p);
        },
    }
}

/// The oracle grants that a list of terms equals itself item by item, where
/// it grants that a term equals itself.
pub proof fn lemma_all_equal_reflexive<O: Oracle>(o: &O, facts: Seq<Term>, a: &List<Term>)
    requires
        reflexive(o),
    ensures
        all_equal(o, facts, *a, *a),
    decreases a,
{
    match a {
        List::Nil => {},
        List::Cons(x, rest) => {
            assert(o.entails(facts, equal(*x, *x)));
            lemma_all_equal_reflexive(o, facts, &**rest);
        },
    }
}

/// A search that finds no conditional resource before one more is held
/// finds that one afterwards, where it is the one asked for.
proof fn lemma_find_cond_pushed<O: Oracle>(st: State, o: &O, c: Cond, i: int)
    requires
        reflexive(o),
        0 <= i <= st.cond.len(),
        st.find_cond(o, c, i) is None,
    ensures
        (State { cond: st.cond.push(c), ..st }).find_cond(o, c, i) == Some(st.cond.len() as int),
    decreases st.cond.len() - i,
{
    let made = State { cond: st.cond.push(c), ..st };
    if i < st.cond.len() {
        assert(made.cond[i] == st.cond[i]);
        lemma_find_cond_pushed(st, o, c, i + 1);
    } else {
        assert(made.cond[i] == c);
        assert(o.entails(made.facts, equal(c.cond, c.cond)));
        lemma_all_equal_reflexive(o, made.facts, &*c.args);
    }
}

/// A conditional resource that production holds back is the one that
/// consumption takes. Where the oracle neither grants nor denies the
/// condition, no conditional resource held before is the one asked for, and
/// the oracle grants that a term equals itself, producing the resource adds
/// it to those that wait, and consuming it right afterwards takes exactly
/// this one away again and unfolds nothing.
pub proof fn lemma_switch_duality<O: Oracle>(st: State, o: &O, names: Seq<Name>, c: Cond, fuel: nat)
    requires
        reflexive(o),
        !o.entails(st.facts, c.cond),
        !o.entails(st.facts, denied(c.cond)),
        st.find_cond(o, c, 0) is None,
    ensures
        st.switch(o, names, Heap::Produce, c, fuel) == Ok::<(State, ()), ConsumeErr>(
            (State { cond: st.cond.push(c), ..st }, ()),
        ),
        (State { cond: st.cond.push(c), ..st }).switch(o, names, Heap::Consume, c, fuel) == Ok::<
            (State, ()),
            ConsumeErr,
        >((st, ())),
{
    let made = State { cond: st.cond.push(c), ..st };
    lemma_find_cond_pushed(st, o, c, 0);
    assert(made.cond.remove(st.cond.len() as int) =~= st.cond);
}

/// A function defined inside a block is checked against its own signature
/// from the state in which the definition is met, and the rest of the block
/// is checked from that same state: what the body of the function consumes
/// is still there for the rest.
pub proof fn lemma_inner_function<O: Oracle>(
    st: State,
    sess: &Session<O>,
    c: Lambda,
    n: Fun<NegTyp>,
    l: Lambda,
    p: Fun<PosTyp>,
)
    ensures
        st.check_expr_pos(sess, Expr::Let(BoundExpr::Cont(Rc::new(c), n), Rc::new(l)), p) == st.check_inner(
            sess,
            c,
            n,
            l,
            p,
        ),
        st.check_inner(sess, c, n, l, p) == inner_verdict(st, sess, c, n, l, p),
{
}

/// The verdict on a function defined inside a block and on the rest of the
/// block, both checked from the state `st`.
pub open spec fn inner_verdict<O: Oracle>(
    st: State,
    sess: &Session<O>,
    c: Lambda,
    n: Fun<NegTyp>,
    l: Lambda,
    p: Fun<PosTyp>,
) -> Result<(), ConsumeErr> {
    match st.check_expr(sess, c, n) {
        Err(e) => Err(e),
        Ok(_) => match l.expr(Seq::empty(), n) {
            Err(e) => Err(e),
            Ok(rest) => locate(st.check_expr_pos(sess, rest, p), Some(l.span)),
        },
    }
}

/// A jump to a label that returns the type that is expected is accepted.
/// Let the arguments of the jump have terms, and let what the label asks of
/// them be consumed. Where the label returns the very type that is
/// expected, a type of the surface syntax whose obligations can be produced
/// steadily, and nothing that is left in the context can be taken for what
/// that type produces, the jump passes, provided that the oracle grants that
/// a term equals itself and grants every fact. No argument for termination
/// is asked for.
pub proof fn lemma_jump_is_fixed_point<O: Oracle>(
    st: State,
    sess: &Session<O>,
    n: Fun<NegTyp>,
    s: Value,
    p: Fun<PosTyp>,
)
    requires
        reflexive(&sess.oracle),
        grants_facts(&sess.oracle),
        plain_names(sess.names@),
        plain_typ(p),
        st.calc_args(&sess.oracle, *s.inj) matches Ok(args) && (st.apply_neg(
            &sess.oracle,
            sess.names@,
            Heap::Consume,
            n,
            args,
            sess.depth as nat,
        ) matches Ok((left, res)) && {
            &&& res == p
            &&& left.fresh(p.arity()) matches Some((ready, vars)) && (ready.apply_pos(
                &sess.oracle,
                sess.names@,
                Heap::Produce,
                p,
                vars,
                sess.depth as nat,
            ) matches Ok((made, _)) && apart(&sess.oracle, ready, made) && steady_apply(
                &sess.oracle,
                sess.names@,
                ready,
                made.bare(),
                p,
                vars,
                sess.depth as nat,
            ))
        }),
    ensures
        st.check_jump(sess, n, s, p) == Ok::<(), ConsumeErr>(()),
        st.check_expr_pos(sess, Expr::Loop(n, s), p) == Ok::<(), ConsumeErr>(()),
{
    let args = super::typing::args_of(st, &sess.oracle, &*s.inj);
    let (left, res) = st.apply_neg(&sess.oracle, sess.names@, Heap::Consume, n, args, sess.depth as nat)->Ok_0;
    lemma_subtype_reflexive(left, &sess.oracle, sess.names@, p, sess.depth as nat);
}

/// Whether a state has the facts of another first.
pub open spec fn facts_kept(from: State, to: State) -> bool {
    &&& from.facts.len() <= to.facts.len()
    &&& forall|j: int| 0 <= j < from.facts.len() ==> to.facts[j] == from.facts[j]
}

/// Producing the parts of a named resource keeps every fact.
pub proof fn lemma_unfold_keeps_facts<O: Oracle>(
    st: State,
    o: &O,
    names: Seq<Name>,
    id: usize,
    args: Seq<Term>,
    fuel: nat,
)
    ensures
        st.unfold(o, names, Heap::Produce, id, args, fuel) matches Ok((to, _)) ==> facts_kept(st, to),
    decreases fuel, 1int, 0int,
{
    if id < names.len() && fuel > 0 {
        lemma_apply_keeps_facts(st, o, names, names[id as int].typ, args, (fuel - 1) as nat);
    }
}

/// Settling the conditional resources that wait keeps every fact.
pub proof fn lemma_settle_keeps_facts<O: Oracle>(st: State, o: &O, names: Seq<Name>, i: nat, fuel: nat)
    ensures
        st.settle(o, names, i, fuel) matches Ok((to, _)) ==> facts_kept(st, to),
    decreases fuel, 2int, i,
{
    if i > 0 {
        let k = (i - 1) as nat;
        if k >= st.cond.len() {
            lemma_settle_keeps_facts(st, o, names, k, fuel);
        } else {
            let c = st.cond[k as int];
            let rest = State { cond: st.cond.remove(k as int), ..st };
            if o.entails(st.facts, c.cond) {
                lemma_unfold_keeps_facts(rest, o, names, c.named, seq_of(c.args), fuel);
                if let Ok((mid, _)) = locate(rest.unfold(o, names, Heap::Produce, c.named, seq_of(c.args), fuel), c.span) {
                    lemma_settle_keeps_facts(mid, o, names, k, fuel);
                }
            } else if o.entails(st.facts, denied(c.cond)) {
                lemma_settle_keeps_facts(rest, o, names, k, fuel);
            } else {
                lemma_settle_keeps_facts(st, o, names, k, fuel);
            }
        }
    }
}

/// Producing a proposition keeps every fact and adds the proposition
/// behind them.
pub proof fn lemma_assert_keeps_facts<O: Oracle>(st: State, o: &O, names: Seq<Name>, phi: Term, fuel: nat)
    ensures
        st.assert_prop(o, names, Heap::Produce, phi, fuel) matches Ok((to, _)) ==> facts_kept(st, to)
            && st.facts.len() < to.facts.len() && to.facts[st.facts.len() as int] == phi,
    decreases fuel, 3int, 0int,
{
    let pushed = State { facts: st.facts.push(phi), ..st };
    lemma_settle_keeps_facts(pushed, o, names, st.cond.len(), fuel);
    assert(pushed.facts[st.facts.len() as int] == phi);
    assert forall|j: int| 0 <= j < st.facts.len() implies pushed.facts[j] == st.facts[j] by {}
}

/// Producing a conditional resource keeps every fact.
pub proof fn lemma_switch_keeps_facts<O: Oracle>(st: State, o: &O, names: Seq<Name>, c: Cond, fuel: nat)
    ensures
        st.switch(o, names, Heap::Produce, c, fuel) matches Ok((to, _)) ==> facts_kept(st, to),
    decreases fuel, 3int, 0int,
{
    if o.entails(st.facts, c.cond) {
        lemma_unfold_keeps_facts(st, o, names, c.named, seq_of(c.args), fuel);
    }
}

/// Producing one obligation keeps every fact.
pub proof fn lemma_part_keeps_facts<O: Oracle>(
    st: State,
    o: &O,
    names: Seq<Name>,
    named: WeakNameList,
    terms: Rc<Scope<Term>>,
    c: Constraint,
    span: Span,
    fuel: nat,
)
    ensures
        st.part(o, names, Heap::Produce, named, terms, c, span, fuel) matches Ok((to, _)) ==> facts_kept(st, to),
    decreases fuel, 4int, 0int,
{
    match c {
        Constraint::Assert(p) => {
            if prop_ok(p, terms) {
                lemma_assert_keeps_facts(st, o, names, prop_of(p, terms), fuel);
            }
        },
        Constraint::Switch(w) => {
            if id_known(named, w.named@) && prop_ok(w.cond, terms) && values_ok(w.args@, terms) {
                let c = Cond {
                    named: id_of(named, w.named@),
                    cond: prop_of(w.cond, terms),
                    args: Rc::new(List::of(values_of(w.args@, terms), 0)),
                    span: Some(span),
                };
                lemma_switch_keeps_facts(st, o, names, c, fuel);
            }
        },
        Constraint::Builtin(_, call) => {
            if call.func is Some {
                let name = call.func->Some_0;
                if name@ != "@byte"@ && !reserved(name@) && id_known(named, name@) && values_ok(
                    call.args@,
                    terms,
                ) {
                    lemma_unfold_keeps_facts(st, o, names, id_of(named, name@), values_of(call.args@, terms), fuel);
                }
            }
        },
        _ => {},
    }
}

/// The terms of a shared list.
pub open spec fn seq_of(l: Rc<List<Term>>) -> Seq<Term> {
    l.seq()
}

/// Whether a proposition has a term.
pub open spec fn prop_ok(p: Prop, terms: Rc<Scope<Term>>) -> bool {
    term_of(p.lower(*terms)) is Ok
}

/// Whether values all have terms.
pub open spec fn values_ok(vals: Seq<expr::Value>, terms: Rc<Scope<Term>>) -> bool {
    terms_of(vals, *terms, vals.len() as int) is Ok
}

/// Whether a name stands for a named resource.
pub open spec fn id_known(named: WeakNameList, name: Seq<char>) -> bool {
    named.0.get(name) is Some
}

/// Producing the obligations of a type from position `i` on keeps every
/// fact.
pub proof fn lemma_parts_keep_facts<O: Oracle>(
    st: State,
    o: &O,
    names: Seq<Name>,
    named: WeakNameList,
    terms: Rc<Scope<Term>>,
    parts: Seq<Spanned<Constraint>>,
    i: int,
    fuel: nat,
)
    requires
        0 <= i,
    ensures
        st.parts(o, names, Heap::Produce, named, terms, parts, i, fuel) matches Ok((to, _)) ==> facts_kept(st, to),
    decreases fuel, 5int, parts.len() - i,
{
    if i < parts.len() {
        lemma_part_keeps_facts(st, o, names, named, terms, parts[i].val, parts[i].span, fuel);
        let one = locate(
            st.part(o, names, Heap::Produce, named, terms, parts[i].val, parts[i].span, fuel),
            Some(parts[i].span),
        );
        if let Ok((mid, scope)) = one {
            lemma_parts_keep_facts(mid, o, names, named, scope, parts, i + 1, fuel);
        }
    }
}

/// Producing what a type asks for keeps every fact.
pub proof fn lemma_apply_keeps_facts<O: Oracle>(
    st: State,
    o: &O,
    names: Seq<Name>,
    fun: Fun<PosTyp>,
    args: Seq<Term>,
    fuel: nat,
)
    ensures
        st.apply_pos(o, names, Heap::Produce, fun, args, fuel) matches Ok((to, _)) ==> facts_kept(st, to),
    decreases fuel, 6int, 0int,
{
    match fun.fun {
        PosTyp::Declared { named, terms, typ } => {
            lemma_parts_keep_facts(
                st,
                o,
                names,
                named,
                bound(terms, typ.val.names@, args),
                typ.val.parts@,
                0,
                fuel,
            );
        },
        PosTyp::Holds(phi) => {
            lemma_assert_keeps_facts(st, o, names, phi, fuel);
        },
        PosTyp::Packed { named, unpack, args: at } => {
            if unpack {
                lemma_unfold_keeps_facts(st, o, names, named, seq_of(at), fuel);
            }
        },
    }
}

/// A proposition that was produced can be consumed, whatever the context
/// holds and whatever waits in it. Where producing a proposition succeeds,
/// conditional resources being settled on the way, consuming the same
/// proposition right afterwards succeeds, provided that the oracle grants
/// every fact; and the consumption changes nothing: it adds no fact and
/// takes no resource.
pub proof fn lemma_assert_duality<O: Oracle>(st: State, o: &O, names: Seq<Name>, phi: Term, fuel: nat)
    requires
        grants_facts(o),
        st.assert_prop(o, names, Heap::Produce, phi, fuel) is Ok,
    ensures
        st.assert_prop(o, names, Heap::Produce, phi, fuel) matches Ok((made, _)) && made.assert_prop(
            o,
            names,
            Heap::Consume,
            phi,
            fuel,
        ) == Ok::<(State, ()), ConsumeErr>((made, ())),
{
    lemma_assert_keeps_facts(st, o, names, phi, fuel);
}

/// Behind `Lawful`, every oracle gives back what was produced: a cell that
/// is produced where no cell held before is granted to be at `ptr` is
/// consumed at once, with the very value that was produced, and what was
/// held before is left.
pub proof fn lemma_lawful_owned_duality<O: Oracle>(st: State, o: &Lawful<O>, ptr: Term)
    requires
        st.univ < usize::MAX,
        forall|j: int| 0 <= j < st.alloc.len() ==> !st.cell_at(o, ptr, j),
    ensures
        st.produce_owned(ptr, Sort::Nat) matches Ok((made, value)) && value == Term::UVar(st.univ, 32)
            && made.consume_owned(o, ptr, Sort::Nat) == Ok::<(State, Term), ErrorKind>(
            (State { univ: made.univ, ..st }, value),
        ),
{
    Lawful::lemma_lawful(o);
    lemma_owned_duality(st, o, ptr);
}

/// Behind `Lawful`, every oracle lets a type consume what it produced: see
/// `lemma_heap_duality`, which asks of the oracle what `Lawful` gives.
pub proof fn lemma_lawful_heap_duality<O: Oracle>(
    st: State,
    o: &Lawful<O>,
    names: Seq<Name>,
    fun: Fun<PosTyp>,
    args: Seq<Term>,
    fuel: nat,
)
    requires
        plain_names(names),
        plain_typ(fun),
        st.apply_pos(o, names, Heap::Produce, fun, args, fuel) matches Ok((made, _)) && apart(o, st, made)
            && steady_apply(o, names, st, made.bare(), fun, args, fuel),
    ensures
        st.apply_pos(o, names, Heap::Produce, fun, args, fuel) matches Ok((made, _)) && made.apply_pos(
            o,
            names,
            Heap::Consume,
            fun,
            args,
            fuel,
        ) == Ok::<(State, ()), ConsumeErr>(
            (State { alloc: st.alloc, forall: st.forall, cond: st.cond, ..made }, ()),
        ),
{
    Lawful::lemma_lawful(o);
    lemma_heap_duality(st, o, names, fun, args, fuel);
}

} // verus!
