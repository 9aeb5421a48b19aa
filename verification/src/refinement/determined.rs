//! Which index variables of a declarative type are determined by the values
//! that inhabit it.
//!
//! A type may bind index variables. A variable is determined where it is
//! the measure of an inductive type: a value of that type fixes it. Every
//! variable that a type binds must be determined, or nothing could tell
//! what it stands for. Variables are written by position: variable 0 is the
//! one bound last. A set of variables is a vector of flags, flag `i` for
//! variable `i`.

use super::term::Sort;
use super::ErrorKind;
use std::rc::Rc;
use vstd::prelude::*;

verus! {

/// A proposition over index terms.
pub enum Prop {
    Eq(Rc<Term>, Rc<Term>),
}

/// An index term.
pub enum Term {
    /// The variable at this position.
    LVar(usize),
    /// A proposition as a truth value.
    Prop(Rc<Prop>),
}

/// A positive type.
pub enum PosTyp {
    /// A tuple.
    Prod(Vec<PosTyp>),
    /// A type whose values make a proposition hold.
    Refined(Rc<PosTyp>, Rc<Prop>),
    /// A type that binds an index variable of a sort.
    Exists(Sort, Rc<PosTyp>),
    /// A suspended computation.
    Thunk(Rc<NegTyp>),
    /// An inductive type given by the clauses of its algebra, whose values
    /// have the measure `t`.
    Measured(Vec<Clause>, Rc<Term>),
}

/// A negative type.
pub enum NegTyp {
    /// A computation that returns a value.
    Force(Rc<PosTyp>),
    /// A computation that may rely on a proposition.
    Implies(Rc<Prop>, Rc<NegTyp>),
    /// A computation for every value of an index variable of a sort.
    Forall(Sort, Rc<NegTyp>),
    /// A function.
    Fun(Rc<PosTyp>, Rc<NegTyp>),
}

/// One clause of an algebra: the shape of a value and the measure of a
/// value of that shape.
pub struct Clause {
    pub functor: ProdFunctor,
    pub body: Term,
}

/// The shape of a value: a product of components.
pub struct ProdFunctor {
    pub prod: Vec<BaseFunctor>,
}

pub enum BaseFunctor {
    /// A component of a fixed type.
    Pos(PosTyp),
    /// A component of the inductive type itself.
    Id,
}

/// The sorts of the index variables in scope, the one bound last at the
/// end.
pub struct Context {
    pub sorts: Vec<Sort>,
}

/// The flag at position `i` of a set, where a position past the end holds
/// no variable.
pub open spec fn flag(r: Seq<bool>, i: int) -> bool {
    0 <= i < r.len() && r[i]
}

/// The union of two sets: as long as the longer of the two.
pub open spec fn union(a: Seq<bool>, b: Seq<bool>) -> Seq<bool> {
    Seq::new(if a.len() >= b.len() { a.len() } else { b.len() }, |i: int| flag(a, i) || flag(b, i))
}

/// The intersection of two sets: as long as the shorter of the two.
pub open spec fn meet(a: Seq<bool>, b: Seq<bool>) -> Seq<bool> {
    Seq::new(if a.len() <= b.len() { a.len() } else { b.len() }, |i: int| a[i] && b[i])
}

/// The set cut to the variables up to `b`, with `b` in it.
pub open spec fn mark(r: Seq<bool>, b: int) -> Seq<bool> {
    Seq::new((b + 1) as nat, |i: int| i == b || flag(r, i))
}

/// The sort of the variable at position `b`.
pub open spec fn sort_of(sorts: Seq<Sort>, b: usize) -> Result<Sort, ErrorKind> {
    if b < sorts.len() {
        Ok(sorts[sorts.len() - 1 - b])
    } else {
        Err(ErrorKind::Unbound)
    }
}

/// The sort of a term.
pub open spec fn term_sort(sorts: Seq<Sort>, t: Term) -> Result<Sort, ErrorKind>
    decreases t,
{
    match t {
        Term::LVar(b) => sort_of(sorts, b),
        Term::Prop(phi) => prop_sort(sorts, *phi),
    }
}

/// The sort of a proposition: a truth value, where both sides of an
/// equation have one sort.
pub open spec fn prop_sort(sorts: Seq<Sort>, phi: Prop) -> Result<Sort, ErrorKind>
    decreases phi,
{
    match phi {
        Prop::Eq(l, r) => match (term_sort(sorts, *l), term_sort(sorts, *r)) {
            (Err(e), _) => Err(e),
            (_, Err(e)) => Err(e),
            (Ok(a), Ok(b)) => if a == b {
                Ok(Sort::Bool)
            } else {
                Err(ErrorKind::Sort)
            },
        },
    }
}

/// That a proposition is a truth value.
pub open spec fn holds_sort(sorts: Seq<Sort>, phi: Prop) -> Result<(), ErrorKind> {
    match prop_sort(sorts, phi) {
        Ok(s) => if s == Sort::Bool {
            Ok(())
        } else {
            Err(ErrorKind::Sort)
        },
        Err(e) => Err(e),
    }
}

/// The set without the variable bound last, which must be in it.
pub open spec fn bind(r: Result<Seq<bool>, ErrorKind>) -> Result<Seq<bool>, ErrorKind> {
    match r {
        Ok(r) => if r.len() > 0 && r[0] {
            Ok(r.drop_first())
        } else {
            Err(ErrorKind::Undetermined)
        },
        Err(e) => Err(e),
    }
}

/// The sorts of the variables that a type binds at its head.
pub open spec fn heads(p: PosTyp) -> Seq<Sort>
    decreases p,
{
    match p {
        PosTyp::Exists(tau, p) => seq![tau] + heads(*p),
        PosTyp::Refined(p, _) => heads(*p),
        _ => Seq::empty(),
    }
}

/// The sorts of the variables that the first `n` components of a shape
/// bind: one of the sort of the measure for each component of the inductive
/// type itself, and the variables that a component of a fixed type binds at
/// its head.
pub open spec fn pattern(prod: Seq<BaseFunctor>, tau: Sort, n: int) -> Seq<Sort>
    decreases n,
{
    if n <= 0 {
        Seq::empty()
    } else {
        pattern(prod, tau, n - 1) + (match prod[n - 1] {
            BaseFunctor::Id => seq![tau],
            BaseFunctor::Pos(p) => heads(p),
        })
    }
}

/// That the measure that each of the first `n` clauses gives has the sort
/// `tau`, in the scope of the variables that the shape of the clause binds.
pub open spec fn clause_sorts(sorts: Seq<Sort>, clauses: Seq<Clause>, tau: Sort, n: int) -> Result<(), ErrorKind>
    decreases n,
{
    if n <= 0 {
        Ok(())
    } else {
        match clause_sorts(sorts, clauses, tau, n - 1) {
            Err(e) => Err(e),
            Ok(_) => {
                let c = clauses[n - 1];
                match term_sort(sorts + pattern(c.functor.prod@, tau, c.functor.prod@.len() as int), c.body) {
                    Err(e) => Err(e),
                    Ok(s) => if s == tau {
                        Ok(())
                    } else {
                        Err(ErrorKind::Sort)
                    },
                }
            },
        }
    }
}

/// The variables that the values of a positive type determine.
pub open spec fn pos(sorts: Seq<Sort>, p: PosTyp) -> Result<Seq<bool>, ErrorKind>
    decreases p, 0int,
{
    match p {
        PosTyp::Prod(ps) => prod(sorts, ps@, ps@.len() as int),
        PosTyp::Refined(p, phi) => match holds_sort(sorts, *phi) {
            Err(e) => Err(e),
            Ok(_) => pos(sorts, *p),
        },
        PosTyp::Exists(tau, p) => bind(pos(sorts.push(tau), *p)),
        PosTyp::Thunk(n) => match neg(sorts, *n) {
            Err(e) => Err(e),
            Ok(_) => Ok(Seq::empty()),
        },
        PosTyp::Measured(clauses, t) => match term_sort(sorts, *t) {
            Err(e) => Err(e),
            Ok(tau) => match clause_sorts(sorts, clauses@, tau, clauses@.len() as int) {
                Err(e) => Err(e),
                Ok(_) => if clauses@.len() == 0 {
                    Err(ErrorKind::Arity)
                } else {
                    match shapes(sorts, clauses@, clauses@.len() as int) {
                        Err(e) => Err(e),
                        Ok(r) => match *t {
                            Term::LVar(b) => Ok(mark(r, b as int)),
                            _ => Ok(r),
                        },
                    }
                },
            },
        },
    }
}

/// The variables that the first `n` components of a tuple determine.
pub open spec fn prod(sorts: Seq<Sort>, ps: Seq<PosTyp>, n: int) -> Result<Seq<bool>, ErrorKind>
    decreases ps, n,
{
    if n <= 0 || n > ps.len() {
        Ok(Seq::empty())
    } else {
        match prod(sorts, ps, n - 1) {
            Err(e) => Err(e),
            Ok(r) => match pos(sorts, ps[n - 1]) {
                Err(e) => Err(e),
                Ok(s) => Ok(union(r, s)),
            },
        }
    }
}

/// The variables that the shapes of the first `n` clauses all determine.
pub open spec fn shapes(sorts: Seq<Sort>, clauses: Seq<Clause>, n: int) -> Result<Seq<bool>, ErrorKind>
    decreases clauses, n,
{
    if n <= 0 || n > clauses.len() {
        Ok(Seq::empty())
    } else if n == 1 {
        functor(sorts, clauses[0].functor.prod@, clauses[0].functor.prod@.len() as int)
    } else {
        match shapes(sorts, clauses, n - 1) {
            Err(e) => Err(e),
            Ok(r) => match functor(
                sorts,
                clauses[n - 1].functor.prod@,
                clauses[n - 1].functor.prod@.len() as int,
            ) {
                Err(e) => Err(e),
                Ok(s) => Ok(meet(r, s)),
            },
        }
    }
}

/// The variables that the first `n` components of a shape determine.
pub open spec fn functor(sorts: Seq<Sort>, fs: Seq<BaseFunctor>, n: int) -> Result<Seq<bool>, ErrorKind>
    decreases fs, n,
{
    if n <= 0 || n > fs.len() {
        Ok(Seq::empty())
    } else {
        match functor(sorts, fs, n - 1) {
            Err(e) => Err(e),
            Ok(r) => match fs[n - 1] {
                BaseFunctor::Pos(p) => match pos(sorts, p) {
                    Err(e) => Err(e),
                    Ok(s) => Ok(union(r, s)),
                },
                BaseFunctor::Id => Ok(r),
            },
        }
    }
}

/// The variables that a negative type determines.
pub open spec fn neg(sorts: Seq<Sort>, n: NegTyp) -> Result<Seq<bool>, ErrorKind>
    decreases n, 0int,
{
    match n {
        NegTyp::Force(p) => match pos(sorts, *p) {
            Err(e) => Err(e),
            Ok(_) => Ok(Seq::empty()),
        },
        NegTyp::Implies(phi, n) => match holds_sort(sorts, *phi) {
            Err(e) => Err(e),
            Ok(_) => neg(sorts, *n),
        },
        NegTyp::Forall(tau, n) => bind(neg(sorts.push(tau), *n)),
        NegTyp::Fun(p, n) => match (pos(sorts, *p), neg(sorts, *n)) {
            (Err(e), _) => Err(e),
            (_, Err(e)) => Err(e),
            (Ok(r1), Ok(r2)) => Ok(union(r1, r2)),
        },
    }
}

/// Whether a result holds the vector `v`, or the failure `r`.
pub open spec fn gives(r: Result<Vec<bool>, ErrorKind>, s: Result<Seq<bool>, ErrorKind>) -> bool {
    match r {
        Ok(v) => s == Ok::<Seq<bool>, ErrorKind>(v@),
        Err(e) => s == Err::<Seq<bool>, ErrorKind>(e),
    }
}

/// The union of two sets of variables: it is as long as the longer of the
/// two, and a variable belongs to it where it belongs to either.
pub fn or(r1: Vec<bool>, r2: Vec<bool>) -> (r: Vec<bool>)
    ensures
        r@ == union(r1@, r2@),
{
    let total_len = if r1.len() >= r2.len() {
        r1.len()
    } else {
        r2.len()
    };
    let mut r: Vec<bool> = Vec::new();
    let mut i: usize = 0;
    while i < total_len
        invariant
            i <= total_len,
            total_len == if r1@.len() >= r2@.len() {
                r1@.len()
            } else {
                r2@.len()
            },
            r@.len() == i,
            forall|j: int| 0 <= j < i ==> r@[j] == (flag(r1@, j) || flag(r2@, j)),
        decreases total_len - i,
    {
        let x = i < r1.len() && r1[i];
        let y = i < r2.len() && r2[i];
        r.push(x || y);
        i += 1;
    }
    assert(r@ =~= union(r1@, r2@));
    r
}

fn and(r1: Vec<bool>, r2: Vec<bool>) -> (r: Vec<bool>)
    ensures
        r@ == meet(r1@, r2@),
{
    let len = if r1.len() <= r2.len() {
        r1.len()
    } else {
        r2.len()
    };
    let mut r: Vec<bool> = Vec::new();
    let mut i: usize = 0;
    while i < len
        invariant
            i <= len,
            len <= r1@.len(),
            len <= r2@.len(),
            len == if r1@.len() <= r2@.len() {
                r1@.len()
            } else {
                r2@.len()
            },
            r@.len() == i,
            forall|j: int| 0 <= j < i ==> r@[j] == (r1@[j] && r2@[j]),
        decreases len - i,
    {
        r.push(r1[i] && r2[i]);
        i += 1;
    }
    assert(r@ =~= meet(r1@, r2@));
    r
}

fn marked(r: Vec<bool>, b: usize) -> (m: Vec<bool>)
    requires
        b < usize::MAX,
    ensures
        m@ == mark(r@, b as int),
{
    let mut m: Vec<bool> = Vec::new();
    let mut i: usize = 0;
    while i < b + 1
        invariant
            i <= b + 1,
            b < usize::MAX,
            m@.len() == i,
            forall|j: int| 0 <= j < i ==> m@[j] == (j == b || flag(r@, j)),
        decreases b + 1 - i,
    {
        m.push(i == b || (i < r.len() && r[i]));
        i += 1;
    }
    assert(m@ =~= mark(r@, b as int));
    m
}

fn bound(r: Result<Vec<bool>, ErrorKind>) -> (q: Result<Vec<bool>, ErrorKind>)
    ensures
        match r {
            Ok(v) => gives(q, bind(Ok(v@))),
            Err(e) => q == Err::<Vec<bool>, ErrorKind>(e),
        },
{
    let mut r = r?;
    let ghost before = r@;
    if r.len() > 0 && r[0] {
        let _ = r.remove(0);
        assert(r@ =~= before.drop_first());
        Ok(r)
    } else {
        Err(ErrorKind::Undetermined)
    }
}

impl Context {
    /// The scope with one more variable, bound last.
    pub fn with(&self, tau: &Sort) -> (c: Context)
        ensures
            c.sorts@ == self.sorts@.push(*tau),
    {
        let mut sorts = self.sorts.clone();
        sorts.push(*tau);
        Context { sorts }
    }

    /// The sort of the variable at position `b`.
    pub fn get(&self, b: &usize) -> (s: Result<Sort, ErrorKind>)
        ensures
            s == sort_of(self.sorts@, *b),
    {
        if *b < self.sorts.len() {
            Ok(self.sorts[self.sorts.len() - 1 - *b])
        } else {
            Err(ErrorKind::Unbound)
        }
    }

    /// The sort of a proposition.
    pub fn infer_prop(&self, phi: &Prop) -> (s: Result<Sort, ErrorKind>)
        ensures
            s == prop_sort(self.sorts@, *phi),
        decreases phi,
    {
        match phi {
            Prop::Eq(l, r) => {
                let a = self.infer_term(l)?;
                let b = self.infer_term(r)?;
                if a == b {
                    Ok(Sort::Bool)
                } else {
                    Err(ErrorKind::Sort)
                }
            },
        }
    }

    /// The sort of a term.
    pub fn infer_term(&self, t: &Term) -> (s: Result<Sort, ErrorKind>)
        ensures
            s == term_sort(self.sorts@, *t),
        decreases t,
    {
        match t {
            Term::LVar(b) => self.get(b),
            Term::Prop(phi) => self.infer_prop(phi),
        }
    }

    fn check_prop(&self, phi: &Prop) -> (r: Result<(), ErrorKind>)
        ensures
            r == holds_sort(self.sorts@, *phi),
    {
        match self.infer_prop(phi)? {
            Sort::Bool => Ok(()),
            _ => Err(ErrorKind::Sort),
        }
    }

    fn heads(p: &PosTyp, out: &mut Vec<Sort>)
        ensures
            final(out)@ == old(out)@ + heads(*p),
        decreases p,
    {
        match p {
            PosTyp::Exists(tau, p) => {
                out.push(*tau);
                Context::heads(p, out);
                assert(final(out)@ =~= old(out)@ + (seq![*tau] + heads(**p)));
            },
            PosTyp::Refined(p, _) => Context::heads(p, out),
            _ => {
                assert(out@ =~= out@ + Seq::<Sort>::empty());
            },
        }
    }

    /// The scope with the variables that a shape binds, where the measure
    /// has the sort `tau`.
    pub fn add_pattern(&self, f: &ProdFunctor, tau: Sort) -> (c: Context)
        ensures
            c.sorts@ == self.sorts@ + pattern(f.prod@, tau, f.prod@.len() as int),
    {
        let mut sorts = self.sorts.clone();
        let mut i: usize = 0;
        assert(sorts@ =~= self.sorts@ + pattern(f.prod@, tau, 0));
        while i < f.prod.len()
            invariant
                i <= f.prod.len(),
                sorts@ == self.sorts@ + pattern(f.prod@, tau, i as int),
            decreases f.prod.len() - i,
        {
            let ghost before = sorts@;
            match &f.prod[i] {
                BaseFunctor::Id => {
                    sorts.push(tau);
                    assert(sorts@ =~= before + seq![tau]);
                },
                BaseFunctor::Pos(p) => Context::heads(p, &mut sorts),
            }
            assert(sorts@ =~= self.sorts@ + pattern(f.prod@, tau, i as int + 1));
            i += 1;
        }
        Context { sorts }
    }

    fn check_clauses(&self, clauses: &Vec<Clause>, tau: Sort) -> (r: Result<(), ErrorKind>)
        ensures
            r == clause_sorts(self.sorts@, clauses@, tau, clauses@.len() as int),
    {
        let mut i: usize = 0;
        while i < clauses.len()
            invariant
                i <= clauses.len(),
                clause_sorts(self.sorts@, clauses@, tau, i as int) == Ok::<(), ErrorKind>(()),
            decreases clauses.len() - i,
        {
            let c = &clauses[i];
            let inner = self.add_pattern(&c.functor, tau);
            let found = match inner.infer_term(&c.body) {
                Ok(s) => if s == tau {
                    Ok(())
                } else {
                    Err(ErrorKind::Sort)
                },
                Err(e) => Err(e),
            };
            if let Err(e) = found {
                proof {
                    lemma_clause_sorts_fails(self.sorts@, clauses@, tau, i as int + 1, clauses@.len() as int);
                }
                return Err(e);
            }
            i += 1;
        }
        Ok(())
    }

    /// The variables that the values of a positive type determine. Every
    /// variable that the type binds must be among them.
    #[verifier::loop_isolation(false)]
    pub fn value_determined_pos(&self, p: &PosTyp) -> (r: Result<Vec<bool>, ErrorKind>)
        ensures
            gives(r, pos(self.sorts@, *p)),
        decreases p, 0int,
    {
        match p {
            PosTyp::Prod(ps) => {
                let mut r: Vec<bool> = Vec::new();
                let mut i: usize = 0;
                while i < ps.len()
                    invariant
                        i <= ps.len(),
                        prod(self.sorts@, ps@, i as int) == Ok::<Seq<bool>, ErrorKind>(r@),
                    decreases ps.len() - i,
                {
                    match self.value_determined_pos(&ps[i]) {
                        Ok(s) => {
                            r = or(r, s);
                        },
                        Err(e) => {
                            proof {
                                lemma_prod_fails(self.sorts@, ps@, i as int + 1, ps@.len() as int);
                            }
                            return Err(e);
                        },
                    }
                    i += 1;
                }
                Ok(r)
            },
            PosTyp::Refined(p, phi) => {
                self.check_prop(phi)?;
                self.value_determined_pos(p)
            },
            PosTyp::Exists(tau, p) => bound(self.with(tau).value_determined_pos(p)),
            PosTyp::Thunk(n) => {
                let _ = self.value_determined_neg(n)?;
                Ok(Vec::new())
            },
            PosTyp::Measured(f_alpha, t) => {
                let tau = self.infer_term(t)?;
                self.check_clauses(f_alpha, tau)?;
                // there must be at least one clause
                if f_alpha.len() == 0 {
                    return Err(ErrorKind::Arity);
                }
                let mut r = match self.value_determined_functor(&f_alpha[0].functor) {
                    Ok(r) => r,
                    Err(e) => {
                        proof {
                            lemma_shapes_fails(self.sorts@, f_alpha@, 1, f_alpha@.len() as int);
                        }
                        return Err(e);
                    },
                };
                let mut i: usize = 1;
                while i < f_alpha.len()
                    invariant
                        1 <= i <= f_alpha.len(),
                        shapes(self.sorts@, f_alpha@, i as int) == Ok::<Seq<bool>, ErrorKind>(r@),
                    decreases f_alpha.len() - i,
                {
                    match self.value_determined_functor(&f_alpha[i].functor) {
                        Ok(v2) => {
                            r = and(r, v2);
                        },
                        Err(e) => {
                            proof {
                                lemma_shapes_fails(self.sorts@, f_alpha@, i as int + 1, f_alpha@.len() as int);
                            }
                            return Err(e);
                        },
                    }
                    i += 1;
                }
                if let Term::LVar(b) = &**t {
                    // a term that is just a variable is determined
                    let known = self.sorts.len();
                    assert(*b < known);
                    r = marked(r, *b);
                }
                Ok(r)
            },
        }
    }

    /// The variables that a negative type determines. Every variable that
    /// the type binds must be among them.
    pub fn value_determined_neg(&self, n: &NegTyp) -> (r: Result<Vec<bool>, ErrorKind>)
        ensures
            gives(r, neg(self.sorts@, *n)),
        decreases n, 0int,
    {
        match n {
            NegTyp::Force(p) => {
                let _ = self.value_determined_pos(p)?;
                Ok(Vec::new())
            },
            NegTyp::Implies(phi, n) => {
                self.check_prop(phi)?;
                self.value_determined_neg(n)
            },
            NegTyp::Forall(tau, n) => bound(self.with(tau).value_determined_neg(n)),
            NegTyp::Fun(p, n) => {
                let r1 = self.value_determined_pos(p)?;
                let r2 = self.value_determined_neg(n)?;
                Ok(or(r1, r2))
            },
        }
    }

    /// The variables that the components of a shape determine.
    #[verifier::loop_isolation(false)]
    pub fn value_determined_functor(&self, f: &ProdFunctor) -> (r: Result<Vec<bool>, ErrorKind>)
        ensures
            gives(r, functor(self.sorts@, f.prod@, f.prod@.len() as int)),
        decreases f, 0int,
    {
        let mut r: Vec<bool> = Vec::new();
        let mut i: usize = 0;
        while i < f.prod.len()
            invariant
                i <= f.prod.len(),
                functor(self.sorts@, f.prod@, i as int) == Ok::<Seq<bool>, ErrorKind>(r@),
            decreases f.prod.len() - i,
        {
            match &f.prod[i] {
                BaseFunctor::Pos(p) => match self.value_determined_pos(p) {
                    Ok(s) => {
                        r = or(r, s);
                    },
                    Err(e) => {
                        proof {
                            lemma_functor_fails(self.sorts@, f.prod@, i as int + 1, f.prod@.len() as int);
                        }
                        return Err(e);
                    },
                },
                BaseFunctor::Id => {},
            }
            i += 1;
        }
        Ok(r)
    }
}

/// A type that binds a variable is accepted only where its values
/// determine the variable; the variables that it determines are those that
/// the type inside determines, without the one it binds.
pub proof fn lemma_bound_is_determined(sorts: Seq<Sort>, tau: Sort, p: &PosTyp)
    requires
        pos(sorts, PosTyp::Exists(tau, Rc::new(*p))) is Ok,
    ensures
        pos(sorts.push(tau), *p) matches Ok(inner) && inner.len() > 0 && inner[0] && pos(
            sorts,
            PosTyp::Exists(tau, Rc::new(*p)),
        ) == Ok::<Seq<bool>, ErrorKind>(inner.drop_first()),
{
}

/// A failure among the first `n` clauses is the failure of any longer
/// prefix.
pub proof fn lemma_clause_sorts_fails(sorts: Seq<Sort>, clauses: Seq<Clause>, tau: Sort, n: int, m: int)
    requires
        n <= m,
        clause_sorts(sorts, clauses, tau, n) is Err,
    ensures
        clause_sorts(sorts, clauses, tau, m) == clause_sorts(sorts, clauses, tau, n),
    decreases m - n,
{
    if n < m {
        lemma_clause_sorts_fails(sorts, clauses, tau, n, m - 1);
    }
}

/// A failure among the first `n` components of a tuple is the failure of
/// any longer prefix.
pub proof fn lemma_prod_fails(sorts: Seq<Sort>, ps: Seq<PosTyp>, n: int, m: int)
    requires
        0 < n <= m <= ps.len(),
        prod(sorts, ps, n) is Err,
    ensures
        prod(sorts, ps, m) == prod(sorts, ps, n),
    decreases m - n,
{
    if n < m {
        lemma_prod_fails(sorts, ps, n, m - 1);
    }
}

/// A failure among the shapes of the first `n` clauses is the failure of
/// any longer prefix.
pub proof fn lemma_shapes_fails(sorts: Seq<Sort>, clauses: Seq<Clause>, n: int, m: int)
    requires
        0 < n <= m <= clauses.len(),
        shapes(sorts, clauses, n) is Err,
    ensures
        shapes(sorts, clauses, m) == shapes(sorts, clauses, n),
    decreases m - n,
{
    if n < m {
        lemma_shapes_fails(sorts, clauses, n, m - 1);
    }
}

/// A failure among the first `n` components of a shape is the failure of
/// any longer prefix.
pub proof fn lemma_functor_fails(sorts: Seq<Sort>, fs: Seq<BaseFunctor>, n: int, m: int)
    requires
        0 < n <= m <= fs.len(),
        functor(sorts, fs, n) is Err,
    ensures
        functor(sorts, fs, m) == functor(sorts, fs, n),
    decreases m - n,
{
    if n < m {
        lemma_functor_fails(sorts, fs, n, m - 1);
    }
}

} // verus!
