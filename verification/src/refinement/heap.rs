//! The resources that a context holds, and the two ways to meet an
//! obligation: to consume what is there, or to produce what is asked for.

use super::list::Terms;
use super::oracle::{equal, Oracle};
use super::term::{BinOp, Sort, Term};
use super::{Cond, CtxForall, ErrorKind, Forall, Fun, NegTyp, Resource, Session};
use std::rc::Rc;
use vstd::prelude::*;

verus! {

/// A heap cell: an address and the value stored there.
pub struct Cell {
    pub ptr: Term,
    pub value: Term,
}

impl Clone for Cell {
    fn clone(&self) -> (r: Self)
        ensures
            r == *self,
    {
        Cell { ptr: self.ptr.clone(), value: self.value.clone() }
    }
}

/// What is known of a function value: its address and its signature.
pub struct FuncDef {
    pub ptr: Term,
    pub typ: Fun<NegTyp>,
}

impl Clone for FuncDef {
    fn clone(&self) -> (r: Self)
        ensures
            r == *self,
    {
        FuncDef { ptr: self.ptr.clone(), typ: self.typ.clone() }
    }
}

/// How an obligation is met.
#[derive(Clone, Copy, Debug, PartialEq, Eq, Structural)]
pub enum Heap {
    /// The resource must be there and is taken away; the proposition must
    /// follow from the facts.
    Consume,
    /// The resource is made and recorded; the proposition becomes a fact.
    Produce,
}

/// The state of a check: the facts, the cells, the families and the
/// conditional resources that are held, the function values that are
/// known, and the number of the next fresh variable.
pub struct SubContext {
    pub facts: Vec<Term>,
    pub alloc: Vec<Cell>,
    pub forall: Vec<CtxForall>,
    pub cond: Vec<Cond>,
    pub funcs: Vec<FuncDef>,
    pub univ: usize,
}

/// The state of a check as a value.
pub struct State {
    pub facts: Seq<Term>,
    pub alloc: Seq<Cell>,
    pub forall: Seq<CtxForall>,
    pub cond: Seq<Cond>,
    pub funcs: Seq<FuncDef>,
    pub univ: usize,
}

impl View for SubContext {
    type V = State;

    open spec fn view(&self) -> State {
        State {
            facts: self.facts@,
            alloc: self.alloc@,
            forall: self.forall@,
            cond: self.cond@,
            funcs: self.funcs@,
            univ: self.univ,
        }
    }
}

impl Clone for SubContext {
    fn clone(&self) -> (r: Self)
        ensures
            r@ == self@,
    {
        let r = SubContext {
            facts: self.facts.clone(),
            alloc: self.alloc.clone(),
            forall: self.forall.clone(),
            cond: self.cond.clone(),
            funcs: self.funcs.clone(),
            univ: self.univ,
        };
        assert(r.funcs@ =~= self.funcs@);
        assert(r.facts@ =~= self.facts@);
        assert(r.alloc@ =~= self.alloc@);
        assert(r.forall@ =~= self.forall@);
        assert(r.cond@ =~= self.cond@);
        r
    }
}

/// The result of a step on a state: the new state and a value, or a failure.
pub type Step<T> = Result<(State, T), ErrorKind>;

/// Whether what a step on a context returned, and the context it left, are
/// what `s` says.
pub open spec fn agrees<T>(r: Result<T, ErrorKind>, left: State, s: Step<T>) -> bool {
    match r {
        Ok(v) => s == Ok::<(State, T), ErrorKind>((left, v)),
        Err(e) => s == Err::<(State, T), ErrorKind>(e),
    }
}

/// The proposition that `ptr` is none of the addresses in `taken`, joined
/// to `base`.
pub open spec fn carve(base: Term, ptr: Term, taken: Terms) -> Term
    decreases taken,
{
    match taken {
        Terms::Nil => base,
        Terms::Cons(t, rest) => Term::Op(
            BinOp::And,
            Rc::new(carve(base, ptr, *rest)),
            Rc::new(Term::Op(BinOp::NotEq, Rc::new(ptr), Rc::new(t))),
        ),
    }
}

impl CtxForall {
    /// The proposition that the family still holds a cell at `ptr`.
    pub open spec fn available(self, ptr: Term) -> Term {
        carve(self.have.mask.at(seq![ptr]), ptr, *self.taken)
    }
}

impl State {
    pub open spec fn empty() -> State {
        State {
            facts: Seq::empty(),
            alloc: Seq::empty(),
            forall: Seq::empty(),
            cond: Seq::empty(),
            funcs: Seq::empty(),
            univ: 0,
        }
    }

    /// The first cell from position `i` on whose address the oracle grants
    /// to be equal to `ptr`.
    pub open spec fn find_cell<O: Oracle>(self, o: &O, ptr: Term, i: int) -> Option<int>
        decreases self.alloc.len() - i,
    {
        if 0 <= i < self.alloc.len() {
            if o.entails(self.facts, equal(self.alloc[i].ptr, ptr)) {
                Some(i)
            } else {
                self.find_cell(o, ptr, i + 1)
            }
        } else {
            None
        }
    }

    /// The first function value from position `i` on whose address the
    /// oracle grants to be equal to `ptr`.
    pub open spec fn find_func<O: Oracle>(self, o: &O, ptr: Term, i: int) -> Option<int>
        decreases self.funcs.len() - i,
    {
        if 0 <= i < self.funcs.len() {
            if o.entails(self.facts, equal(self.funcs[i].ptr, ptr)) {
                Some(i)
            } else {
                self.find_func(o, ptr, i + 1)
            }
        } else {
            None
        }
    }

    /// The state after `n` fresh variables are taken, and the variables.
    pub open spec fn fresh(self, n: nat) -> Option<(State, Seq<Term>)> {
        if self.univ + n <= usize::MAX {
            Some(
                (
                    State { univ: (self.univ + n) as usize, ..self },
                    Seq::new(n, |j: int| Term::UVar((self.univ + j) as usize, 32)),
                ),
            )
        } else {
            None
        }
    }

    /// The state with its facts and the function values it knows, and
    /// nothing that it holds.
    pub open spec fn without_alloc(self) -> State {
        State { alloc: Seq::empty(), forall: Seq::empty(), cond: Seq::empty(), ..self }
    }

    /// The first family of owned bytes from position `i` on that the oracle
    /// grants to hold a cell at `ptr`.
    pub open spec fn find_family<O: Oracle>(self, o: &O, ptr: Term, i: int) -> Option<int>
        decreases self.forall.len() - i,
    {
        if 0 <= i < self.forall.len() {
            let f = self.forall[i];
            if f.have.named == Resource::Owned && f.have.mask.arity == 1 && o.entails(self.facts, f.available(ptr)) {
                Some(i)
            } else {
                self.find_family(o, ptr, i + 1)
            }
        } else {
            None
        }
    }

    /// The first family from position `i` on that is made of the same
    /// resource as `want` and whose mask the oracle grants to be equal to
    /// the mask of `want`.
    pub open spec fn find_forall<O: Oracle>(self, o: &O, want: Forall, i: int) -> Option<int>
        decreases self.forall.len() - i,
    {
        if 0 <= i < self.forall.len() {
            let f = self.forall[i];
            if f.have.named == want.named && f.have.mask.arity == want.mask.arity && o.entails(
                self.facts,
                equal(f.have.mask.body, want.mask.body),
            ) {
                Some(i)
            } else {
                self.find_forall(o, want, i + 1)
            }
        } else {
            None
        }
    }

    /// Takes the cell at `ptr`: the first cell at a provably equal address
    /// leaves the state and gives its value; failing that, the first family
    /// of owned bytes that provably holds a cell there notes the address as
    /// taken, and the value is a fresh variable.
    pub open spec fn consume_owned<O: Oracle>(self, o: &O, ptr: Term, tau: Sort) -> Step<Term> {
        if tau != Sort::Nat {
            Err(ErrorKind::Sort)
        } else {
            match self.find_cell(o, ptr, 0) {
                Some(i) => Ok((State { alloc: self.alloc.remove(i), ..self }, self.alloc[i].value)),
                None => match self.find_family(o, ptr, 0) {
                    Some(j) => if self.univ < usize::MAX {
                        let f = self.forall[j];
                        let g = CtxForall { have: f.have, taken: Rc::new(Terms::Cons(ptr, f.taken)) };
                        Ok(
                            (
                                State { forall: self.forall.update(j, g), univ: (self.univ + 1) as usize, ..self },
                                Term::UVar(self.univ, 32),
                            ),
                        )
                    } else {
                        Err(ErrorKind::Limit)
                    },
                    None => Err(ErrorKind::Absent),
                },
            }
        }
    }

    /// Makes a cell at `ptr` whose value is a fresh variable, whatever sort
    /// is asked for and whatever cells are held already. It fails only where
    /// the supply of fresh variables is used up.
    pub open spec fn produce_owned(self, ptr: Term, tau: Sort) -> Step<Term> {
        if self.univ < usize::MAX {
            let value = Term::UVar(self.univ, 32);
            Ok((State { alloc: self.alloc.push(Cell { ptr, value }), univ: (self.univ + 1) as usize, ..self }, value))
        } else {
            Err(ErrorKind::Limit)
        }
    }

    /// Checks that a proposition follows from the facts.
    pub open spec fn consume_assert<O: Oracle>(self, o: &O, phi: Term) -> Step<()> {
        if phi.sort() != Sort::Bool {
            Err(ErrorKind::Sort)
        } else if o.entails(self.facts, phi) {
            Ok((self, ()))
        } else {
            Err(ErrorKind::Unprovable)
        }
    }

    /// Takes the cells at the given addresses, in order.
    pub open spec fn take_cells<O: Oracle>(self, o: &O, taken: Terms) -> Step<()>
        decreases taken,
    {
        match taken {
            Terms::Nil => Ok((self, ())),
            Terms::Cons(t, rest) => match self.find_cell(o, t, 0) {
                Some(i) => (State { alloc: self.alloc.remove(i), ..self }).take_cells(o, *rest),
                None => Err(ErrorKind::Absent),
            },
        }
    }

    /// Takes a family: the first family held of the same resource and a
    /// provably equal mask leaves the state, together with the cells that
    /// fill the places taken out of it.
    pub open spec fn consume_forall<O: Oracle>(self, o: &O, want: Forall) -> Step<()> {
        match self.find_forall(o, want, 0) {
            Some(j) => (State { forall: self.forall.remove(j), ..self }).take_cells(o, *self.forall[j].taken),
            None => Err(ErrorKind::Absent),
        }
    }

    /// Records a family with nothing taken out of it.
    pub open spec fn produce_forall(self, want: Forall) -> Step<()> {
        Ok((State { forall: self.forall.push(CtxForall { have: want, taken: Rc::new(Terms::Nil) }), ..self }, ()))
    }
}

impl SubContext {
    /// A context that holds nothing.
    pub fn new() -> (c: Self)
        ensures
            c@ == State::empty(),
    {
        SubContext {
            facts: Vec::new(),
            alloc: Vec::new(),
            forall: Vec::new(),
            cond: Vec::new(),
            funcs: Vec::new(),
            univ: 0,
        }
    }

    /// Whether the oracle grants that two terms are equal under the facts.
    pub fn is_always_eq<O: Oracle>(&self, sess: &Session<O>, l: &Term, r: &Term) -> (b: bool)
        ensures
            b == sess.oracle.entails(self@.facts, equal(*l, *r)),
    {
        sess.oracle.prove(&self.facts, &l.eq(r))
    }

    /// Checks that the oracle grants a proposition under the facts.
    pub fn verify_prop<O: Oracle>(&self, sess: &Session<O>, phi: &Term) -> (r: Result<(), ErrorKind>)
        ensures
            r == (if sess.oracle.entails(self@.facts, *phi) {
                Ok::<(), ErrorKind>(())
            } else {
                Err::<(), ErrorKind>(ErrorKind::Unprovable)
            }),
    {
        if sess.oracle.prove(&self.facts, phi) {
            Ok(())
        } else {
            Err(ErrorKind::Unprovable)
        }
    }

    fn find_cell<O: Oracle>(&self, sess: &Session<O>, ptr: &Term) -> (r: Option<usize>)
        ensures
            match r {
                Some(i) => self@.find_cell(&sess.oracle, *ptr, 0) == Some(i as int) && i < self.alloc.len(),
                None => self@.find_cell(&sess.oracle, *ptr, 0) is None,
            },
    {
        let mut i: usize = 0;
        while i < self.alloc.len()
            invariant
                i <= self.alloc.len(),
                self@.find_cell(&sess.oracle, *ptr, i as int) == self@.find_cell(&sess.oracle, *ptr, 0),
            decreases self.alloc.len() - i,
        {
            if self.is_always_eq(sess, &self.alloc[i].ptr, ptr) {
                return Some(i);
            }
            i += 1;
        }
        None
    }

    /// Looks a function value up by its address.
    pub fn find_func<O: Oracle>(&self, sess: &Session<O>, ptr: &Term) -> (r: Option<usize>)
        ensures
            match r {
                Some(i) => self@.find_func(&sess.oracle, *ptr, 0) == Some(i as int) && i < self.funcs.len(),
                None => self@.find_func(&sess.oracle, *ptr, 0) is None,
            },
    {
        let mut i: usize = 0;
        while i < self.funcs.len()
            invariant
                i <= self.funcs.len(),
                self@.find_func(&sess.oracle, *ptr, i as int) == self@.find_func(&sess.oracle, *ptr, 0),
            decreases self.funcs.len() - i,
        {
            if self.is_always_eq(sess, &self.funcs[i].ptr, ptr) {
                return Some(i);
            }
            i += 1;
        }
        None
    }

    /// Takes `n` fresh variables.
    pub fn fresh(&mut self, n: usize) -> (r: Option<Vec<Term>>)
        ensures
            match r {
                Some(v) => old(self)@.fresh(n as nat) == Some((final(self)@, v@)),
                None => old(self)@.fresh(n as nat) is None,
            },
    {
        if n > usize::MAX - self.univ {
            return None;
        }
        let first = self.univ;
        let mut out: Vec<Term> = Vec::new();
        let mut j: usize = 0;
        while j < n
            invariant
                j <= n,
                first + n <= usize::MAX,
                out@.len() == j,
                forall|k: int| 0 <= k < j ==> out@[k] == Term::UVar((first + k) as usize, 32),
            decreases n - j,
        {
            out.push(Term::UVar(first + j, 32));
            j += 1;
        }
        self.univ = first + n;
        assert(out@ =~= Seq::new(n as nat, |k: int| Term::UVar((first + k) as usize, 32)));
        Some(out)
    }

    /// A copy of the context that keeps the facts and the function values
    /// and holds nothing.
    pub fn without_alloc(&self) -> (c: Self)
        ensures
            c@ == self@.without_alloc(),
    {
        let facts = self.facts.clone();
        assert(facts@ =~= self.facts@);
        let funcs = self.funcs.clone();
        assert(funcs@ =~= self.funcs@);
        SubContext { facts, alloc: Vec::new(), forall: Vec::new(), cond: Vec::new(), funcs, univ: self.univ }
    }

    fn available(f: &CtxForall, ptr: &Term) -> (t: Term)
        ensures
            t == f.available(*ptr),
    {
        let mut args: Vec<Term> = Vec::new();
        args.push(ptr.clone());
        assert(args@ =~= seq![*ptr]);
        let base = f.have.mask.apply(&args);
        SubContext::carve(base, ptr, &f.taken)
    }

    fn carve(base: Term, ptr: &Term, taken: &Terms) -> (t: Term)
        ensures
            t == carve(base, *ptr, *taken),
        decreases taken,
    {
        match taken {
            Terms::Nil => base,
            Terms::Cons(t, rest) => {
                let inner = SubContext::carve(base, ptr, rest);
                BinOp::And.apply(&inner, &BinOp::NotEq.apply(ptr, t))
            },
        }
    }

    fn find_family<O: Oracle>(&self, sess: &Session<O>, ptr: &Term) -> (r: Option<usize>)
        ensures
            match r {
                Some(i) => self@.find_family(&sess.oracle, *ptr, 0) == Some(i as int) && i < self.forall.len(),
                None => self@.find_family(&sess.oracle, *ptr, 0) is None,
            },
    {
        let mut i: usize = 0;
        while i < self.forall.len()
            invariant
                i <= self.forall.len(),
                self@.find_family(&sess.oracle, *ptr, i as int) == self@.find_family(&sess.oracle, *ptr, 0),
            decreases self.forall.len() - i,
        {
            let f = &self.forall[i];
            if f.have.named == Resource::Owned && f.have.mask.arity == 1 {
                let goal = SubContext::available(f, ptr);
                if sess.oracle.prove(&self.facts, &goal) {
                    return Some(i);
                }
            }
            i += 1;
        }
        None
    }

    fn find_forall<O: Oracle>(&self, sess: &Session<O>, want: &Forall) -> (r: Option<usize>)
        ensures
            match r {
                Some(i) => self@.find_forall(&sess.oracle, *want, 0) == Some(i as int) && i < self.forall.len(),
                None => self@.find_forall(&sess.oracle, *want, 0) is None,
            },
    {
        let mut i: usize = 0;
        while i < self.forall.len()
            invariant
                i <= self.forall.len(),
                self@.find_forall(&sess.oracle, *want, i as int) == self@.find_forall(&sess.oracle, *want, 0),
            decreases self.forall.len() - i,
        {
            let f = &self.forall[i];
            if f.have.named == want.named && f.have.mask.arity == want.mask.arity {
                if self.is_always_eq(sess, &f.have.mask.body, &want.mask.body) {
                    return Some(i);
                }
            }
            i += 1;
        }
        None
    }

    /// Takes the cell at `ptr` out of the context and returns its value.
    pub fn consume_owned<O: Oracle>(&mut self, sess: &Session<O>, ptr: &Term, tau: Sort) -> (r: Result<
        Term,
        ErrorKind,
    >)
        ensures
            agrees(r, final(self)@, old(self)@.consume_owned(&sess.oracle, *ptr, tau)),
    {
        if tau != Sort::Nat {
            return Err(ErrorKind::Sort);
        }
        match self.find_cell(sess, ptr) {
            Some(i) => {
                let cell = self.alloc.remove(i);
                Ok(cell.value)
            },
            None => match self.find_family(sess, ptr) {
                Some(j) => {
                    if self.univ < usize::MAX {
                        let f = &self.forall[j];
                        let g = CtxForall {
                            have: f.have.clone(),
                            taken: Rc::new(Terms::Cons(ptr.clone(), f.taken.clone())),
                        };
                        self.forall.set(j, g);
                        let value = Term::UVar(self.univ, 32);
                        self.univ = self.univ + 1;
                        Ok(value)
                    } else {
                        Err(ErrorKind::Limit)
                    }
                },
                None => Err(ErrorKind::Absent),
            },
        }
    }

    /// Puts a fresh cell at `ptr` into the context and returns its value.
    pub fn produce_owned(&mut self, ptr: &Term, tau: Sort) -> (r: Result<Term, ErrorKind>)
        ensures
            agrees(r, final(self)@, old(self)@.produce_owned(*ptr, tau)),
    {
        if self.univ < usize::MAX {
            let value = Term::UVar(self.univ, 32);
            self.alloc.push(Cell { ptr: ptr.clone(), value: value.clone() });
            self.univ = self.univ + 1;
            Ok(value)
        } else {
            Err(ErrorKind::Limit)
        }
    }

    /// Checks that a proposition follows from the facts of the context.
    pub fn consume_assert<O: Oracle>(&mut self, sess: &Session<O>, phi: &Term) -> (r: Result<(), ErrorKind>)
        ensures
            agrees(r, final(self)@, old(self)@.consume_assert(&sess.oracle, *phi)),
    {
        if phi.get_sort() != Sort::Bool {
            return Err(ErrorKind::Sort);
        }
        self.verify_prop(sess, phi)
    }

    fn take_cells<O: Oracle>(&mut self, sess: &Session<O>, taken: &Terms) -> (r: Result<(), ErrorKind>)
        ensures
            agrees(r, final(self)@, old(self)@.take_cells(&sess.oracle, *taken)),
        decreases taken,
    {
        match taken {
            Terms::Nil => Ok(()),
            Terms::Cons(t, rest) => match self.find_cell(sess, t) {
                Some(i) => {
                    let _ = self.alloc.remove(i);
                    self.take_cells(sess, rest)
                },
                None => Err(ErrorKind::Absent),
            },
        }
    }

    /// Takes a family out of the context.
    pub fn consume_forall<O: Oracle>(&mut self, sess: &Session<O>, want: &Forall) -> (r: Result<(), ErrorKind>)
        ensures
            agrees(r, final(self)@, old(self)@.consume_forall(&sess.oracle, *want)),
    {
        match self.find_forall(sess, want) {
            Some(j) => {
                let f = self.forall.remove(j);
                self.take_cells(sess, &f.taken)
            },
            None => Err(ErrorKind::Absent),
        }
    }

    /// Puts a family into the context.
    pub fn produce_forall(&mut self, want: &Forall) -> (r: Result<(), ErrorKind>)
        ensures
            agrees(r, final(self)@, old(self)@.produce_forall(*want)),
    {
        self.forall.push(CtxForall { have: want.clone(), taken: Rc::new(Terms::Nil) });
        Ok(())
    }
}

} // verus!
