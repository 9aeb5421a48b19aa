//! Placeholders and their solutions: a proposition that is built up step by
//! step, and one slot for each placeholder that may hold its solution.

use super::oracle::equal;
use super::term::Term;
use super::ErrorKind;
use std::rc::Rc;
use vstd::prelude::*;

verus! {

/// A proposition built from propositions by conjunction.
pub enum Constraint {
    True,
    And(Rc<Constraint>, Rc<Constraint>),
    Prop(Term),
}

impl Constraint {
    /// The proposition with the placeholder `idx` replaced by `t`.
    pub open spec fn solved(self, idx: usize, t: Term) -> Constraint
        decreases self,
    {
        match self {
            Constraint::True => Constraint::True,
            Constraint::And(l, r) => Constraint::And(Rc::new(l.solved(idx, t)), Rc::new(r.solved(idx, t))),
            Constraint::Prop(p) => Constraint::Prop(fill(p, idx, t)),
        }
    }

    /// Whether the proposition mentions the placeholder `idx`.
    pub open spec fn mentions(self, idx: usize) -> bool
        decreases self,
    {
        match self {
            Constraint::True => false,
            Constraint::And(l, r) => l.mentions(idx) || r.mentions(idx),
            Constraint::Prop(p) => occurs(p, idx),
        }
    }

    /// Replaces a placeholder by a term.
    pub fn solve(&self, idx: usize, t: &Term) -> (c: Constraint)
        ensures
            c == self.solved(idx, *t),
        decreases self,
    {
        match self {
            Constraint::True => Constraint::True,
            Constraint::And(l, r) => Constraint::And(Rc::new(l.solve(idx, t)), Rc::new(r.solve(idx, t))),
            Constraint::Prop(p) => Constraint::Prop(fill_in(p, idx, t)),
        }
    }

    /// A proposition in which a placeholder is replaced by a term that does
    /// not mention it no longer mentions it.
    pub proof fn lemma_solved_mentions(&self, idx: usize, t: &Term)
        requires
            !occurs(*t, idx),
        ensures
            !self.solved(idx, *t).mentions(idx),
        decreases self,
    {
        match self {
            Constraint::True => {},
            Constraint::And(l, r) => {
                l.lemma_solved_mentions(idx, t);
                r.lemma_solved_mentions(idx, t);
            },
            Constraint::Prop(p) => {
                lemma_fill_occurs(p, idx, t);
            },
        }
    }
}

/// The term with the placeholder `idx` replaced by `t`.
pub open spec fn fill(term: Term, idx: usize, t: Term) -> Term
    decreases term,
{
    match term {
        Term::EVar(i, _) => if i == idx { t } else { term },
        Term::Op(op, l, r) => Term::Op(op, Rc::new(fill(*l, idx, t)), Rc::new(fill(*r, idx, t))),
        _ => term,
    }
}

/// Whether the term mentions the placeholder `idx`.
pub open spec fn occurs(term: Term, idx: usize) -> bool
    decreases term,
{
    match term {
        Term::EVar(i, _) => i == idx,
        Term::Op(_, l, r) => occurs(*l, idx) || occurs(*r, idx),
        _ => false,
    }
}

/// A term in which a placeholder is replaced by a term that does not
/// mention it no longer mentions it.
pub proof fn lemma_fill_occurs(term: &Term, idx: usize, t: &Term)
    requires
        !occurs(*t, idx),
    ensures
        !occurs(fill(*term, idx, *t), idx),
    decreases term,
{
    match term {
        Term::Op(_, l, r) => {
            lemma_fill_occurs(&**l, idx, t);
            lemma_fill_occurs(&**r, idx, t);
        },
        _ => {},
    }
}

/// Replaces a placeholder in a term by a term.
pub fn fill_in(term: &Term, idx: usize, t: &Term) -> (r: Term)
    ensures
        r == fill(*term, idx, *t),
    decreases term,
{
    match term {
        Term::EVar(i, _) => if *i == idx { t.clone() } else { term.clone() },
        Term::Op(op, l, r) => Term::Op(*op, Rc::new(fill_in(l, idx, t)), Rc::new(fill_in(r, idx, t))),
        _ => term.clone(),
    }
}

/// A proposition and the solutions found so far: slot `i` belongs to the
/// placeholder `i`.
pub struct ExtendedConstraint {
    pub w: Rc<Constraint>,
    pub r: Vec<Option<Term>>,
}

/// The slots of two constraints merged: each slot holds the solution of
/// the left side where it has one, and that of the right side otherwise.
pub open spec fn merged(a: Seq<Option<Term>>, b: Seq<Option<Term>>) -> Seq<Option<Term>> {
    Seq::new(
        if a.len() >= b.len() { a.len() } else { b.len() },
        |i: int|
            if i < a.len() && a[i] is Some {
                a[i]
            } else if i < b.len() {
                b[i]
            } else {
                None
            },
    )
}

/// The slots after the placeholder `x` is said to equal `t`: there are
/// slots up to `x`, and slot `x` keeps the solution it has, or else takes
/// `t`. Every other slot is as before.
pub open spec fn instantiated(r: Seq<Option<Term>>, x: int, t: Term) -> Seq<Option<Term>> {
    Seq::new(
        if r.len() >= x + 1 { r.len() } else { (x + 1) as nat },
        |i: int|
            if i == x {
                if i < r.len() && r[i] is Some {
                    r[i]
                } else {
                    Some(t)
                }
            } else if i < r.len() {
                r[i]
            } else {
                None
            },
    )
}

/// The conjunction of the propositions of the first `n` constraints,
/// starting from the true proposition.
pub open spec fn conjoined(list: Seq<ExtendedConstraint>, n: int) -> Constraint
    decreases n,
{
    if n <= 0 {
        Constraint::True
    } else {
        Constraint::And(Rc::new(conjoined(list, n - 1)), list[n - 1].w)
    }
}

/// The slots of the first `n` constraints merged from the left.
pub open spec fn merged_all(list: Seq<ExtendedConstraint>, n: int) -> Seq<Option<Term>>
    decreases n,
{
    if n <= 0 {
        Seq::empty()
    } else {
        merged(merged_all(list, n - 1), list[n - 1].r@)
    }
}

/// The conjunction of all the constraints of a list.
pub fn and(list: Vec<ExtendedConstraint>) -> (c: ExtendedConstraint)
    ensures
        *c.w == conjoined(list@, list@.len() as int),
        c.r@ == merged_all(list@, list@.len() as int),
{
    let mut acc = ExtendedConstraint::new();
    let mut i: usize = 0;
    while i < list.len()
        invariant
            i <= list.len(),
            *acc.w == conjoined(list@, i as int),
            acc.r@ == merged_all(list@, i as int),
        decreases list.len() - i,
    {
        acc = acc.bitand(&list[i]);
        i += 1;
    }
    acc
}

impl ExtendedConstraint {
    /// The true proposition without any slot.
    pub fn new() -> (c: Self)
        ensures
            *c.w == Constraint::True,
            c.r@ == Seq::<Option<Term>>::empty(),
    {
        ExtendedConstraint { w: Rc::new(Constraint::True), r: Vec::new() }
    }

    /// The conjunction of two constraints, with their slots merged.
    pub fn bitand(self, rhs: &Self) -> (c: Self)
        ensures
            *c.w == Constraint::And(self.w, rhs.w),
            c.r@ == merged(self.r@, rhs.r@),
    {
        let ExtendedConstraint { w: w1, r: r1 } = self;
        let mut out: Vec<Option<Term>> = Vec::new();
        let len = if r1.len() >= rhs.r.len() {
            r1.len()
        } else {
            rhs.r.len()
        };
        let mut i: usize = 0;
        while i < len
            invariant
                i <= len,
                len == if r1@.len() >= rhs.r@.len() {
                    r1@.len()
                } else {
                    rhs.r@.len()
                },
                out@.len() == i,
                forall|j: int| 0 <= j < i ==> out@[j] == merged(r1@, rhs.r@)[j],
            decreases len - i,
        {
            let left = if i < r1.len() {
                r1[i].clone()
            } else {
                None
            };
            let slot = match left {
                Some(t) => Some(t),
                None => if i < rhs.r.len() {
                    rhs.r[i].clone()
                } else {
                    None
                },
            };
            out.push(slot);
            i += 1;
        }
        assert(out@ =~= merged(r1@, rhs.r@));
        ExtendedConstraint { w: Rc::new(Constraint::And(w1, rhs.w.clone())), r: out }
    }

    /// Conjoins a proposition.
    pub fn and_prop(self, prop: &Term) -> (c: Self)
        ensures
            *c.w == Constraint::And(self.w, Rc::new(Constraint::Prop(*prop))),
            c.r@ == self.r@,
    {
        let cons = Rc::new(Constraint::Prop(prop.clone()));
        ExtendedConstraint { w: Rc::new(Constraint::And(self.w, cons)), r: self.r }
    }

    /// Uses the solution found for the topmost placeholder: its slot is
    /// dropped, the solution replaces the placeholder in the proposition,
    /// and the solution is returned. A slot without a solution is a failure.
    pub fn push_down(self, evar: &Term) -> (res: Result<(Self, Term), ErrorKind>)
        requires
            *evar matches Term::EVar(idx, _) && self.r@.len() == idx + 1,
        ensures
            match res {
                Ok((c, t)) => {
                    &&& *evar matches Term::EVar(idx, _)
                    &&& self.r@[idx as int] == Some(t)
                    &&& c.r@ == self.r@.drop_last()
                    &&& *c.w == self.w.solved(idx, t)
                },
                Err(e) => {
                    &&& *evar matches Term::EVar(idx, _)
                    &&& self.r@[idx as int] is None
                    &&& e == ErrorKind::Undetermined
                },
            },
    {
        let idx = match evar {
            Term::EVar(idx, _) => *idx,
            _ => 0,
        };
        let ExtendedConstraint { w, r } = self;
        let mut r = r;
        match r.pop().unwrap() {
            Some(t) => Ok((ExtendedConstraint { w: Rc::new(w.solve(idx, &t)), r }, t)),
            None => Err(ErrorKind::Undetermined),
        }
    }

    /// Records that `t` equals `t_`. Where `t_` is a placeholder whose slot
    /// is still empty, `t` becomes its solution; a slot that is filled is
    /// never changed.
    pub fn inst(self, t: &Term, t_: &Term) -> (c: Self)
        requires
            *t_ matches Term::EVar(x, _) ==> x < usize::MAX,
        ensures
            *c.w == Constraint::And(self.w, Rc::new(Constraint::Prop(equal(*t, *t_)))),
            c.r@ == match *t_ {
                Term::EVar(x, _) => instantiated(self.r@, x as int, *t),
                _ => self.r@,
            },
    {
        let prop = t.eq(t_);
        let ExtendedConstraint { w, r } = self.and_prop(&prop);
        let mut r = r;
        let ghost before = r@;
        if let Term::EVar(x, _) = t_ {
            while r.len() < *x + 1
                invariant
                    *x < usize::MAX,
                    before.len() <= r@.len(),
                    r@.len() <= before.len() || r@.len() <= *x + 1,
                    forall|j: int| 0 <= j < before.len() ==> r@[j] == before[j],
                    forall|j: int| before.len() <= j < r@.len() ==> r@[j] is None,
                decreases *x + 1 - r.len(),
            {
                r.push(None);
            }
            if r[*x].is_none() {
                r.set(*x, Some(t.clone()));
            }
            assert(r@ =~= instantiated(before, *x as int, *t));
        }
        ExtendedConstraint { w, r }
    }
}

/// Once a slot is filled, saying again what its placeholder equals leaves
/// the solution as it is, and every other slot as well: only the
/// proposition grows.
pub proof fn lemma_inst_keeps_solution(r: Seq<Option<Term>>, x: int, t: Term)
    requires
        0 <= x < r.len(),
        r[x] is Some,
    ensures
        instantiated(r, x, t) == r,
{
    assert(instantiated(r, x, t) =~= r);
}

/// The first solution of a placeholder stays: after it is said to equal
/// `t1` and then to equal `t2`, its slot holds what it held after the first
/// step.
pub proof fn lemma_inst_twice(r: Seq<Option<Term>>, x: int, t1: Term, t2: Term)
    requires
        0 <= x,
    ensures
        instantiated(instantiated(r, x, t1), x, t2) == instantiated(r, x, t1),
        instantiated(r, x, t1)[x] is Some,
{
    lemma_inst_keeps_solution(instantiated(r, x, t1), x, t2);
}

} // verus!
