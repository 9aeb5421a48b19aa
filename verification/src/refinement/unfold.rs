//! Applying a type to terms: its obligations are met one after the other,
//! named resources are unfolded into their parts, and conditional resources
//! are settled as soon as their condition is decided.

use super::heap::{agrees, FuncDef, Heap, State, Step, SubContext};
use super::list::{List, Scope};
use super::oracle::{denied, equal, Oracle};
use super::term::{BinOp, Sort, Term};
use super::{
    Cond, ConsumeErr, ErrorKind, Forall, Fun, FuncTerm, Name, NegTyp, PosTyp, Resource, Session, Span, Spanned,
    WeakNameList,
};
use crate::parse::desugar::{
    is_reserved, prop_term, reserved, term_of, terms_of, value_term, value_terms, Desugar,
};
use crate::parse::types::Constraint;
use std::rc::Rc;
use vstd::prelude::*;

verus! {

/// The result of a run on a state: the new state and a value, or a failure
/// and its place.
pub type Run<T> = Result<(State, T), ConsumeErr>;

/// Whether what a run on a context returned, and the context it left, are
/// what `s` says.
pub open spec fn runs<T>(r: Result<T, ConsumeErr>, left: State, s: Run<T>) -> bool {
    match r {
        Ok(v) => s == Ok::<(State, T), ConsumeErr>((left, v)),
        Err(e) => s == Err::<(State, T), ConsumeErr>(e),
    }
}

/// A failure of this kind at this place.
pub open spec fn fail<T>(kind: ErrorKind, span: Option<Span>) -> Result<T, ConsumeErr> {
    Err(ConsumeErr { kind, span })
}

/// A step as a run: its failure has no place yet.
pub open spec fn lift<T>(s: Step<T>) -> Run<T> {
    match s {
        Ok(x) => Ok(x),
        Err(kind) => Err(ConsumeErr { kind, span: None }),
    }
}

/// The result with `span` as the place of a failure that has none.
pub open spec fn locate<T>(r: Result<T, ConsumeErr>, span: Option<Span>) -> Result<T, ConsumeErr> {
    match r {
        Err(e) => if e.span is None {
            Err(ConsumeErr { kind: e.kind, span })
        } else {
            r
        },
        _ => r,
    }
}

/// The result with `span` as the place of its failure, whatever place the
/// failure had.
pub open spec fn blame<T>(r: Result<T, ConsumeErr>, span: Option<Span>) -> Result<T, ConsumeErr> {
    match r {
        Err(e) => Err(ConsumeErr { kind: e.kind, span }),
        _ => r,
    }
}

/// The mask that holds at the first `n` of the given arguments and nowhere
/// else.
pub open spec fn exact_mask(args: Seq<Term>, n: int) -> Term
    decreases n,
{
    if n <= 0 {
        Term::Nat(1, 32)
    } else {
        Term::Op(
            BinOp::And,
            Rc::new(exact_mask(args, n - 1)),
            Rc::new(equal(Term::Bound((n - 1) as usize, 32), args[n - 1])),
        )
    }
}

/// The family that holds the named resource at exactly these arguments.
pub open spec fn exactly(id: usize, args: Seq<Term>) -> Forall {
    Forall {
        named: Resource::Named(id),
        mask: FuncTerm { arity: args.len() as usize, body: exact_mask(args, args.len() as int) },
        span: None,
    }
}

/// Whether the oracle grants that two lists of terms are equal item by item.
pub open spec fn all_equal<O: Oracle>(o: &O, facts: Seq<Term>, a: List<Term>, b: List<Term>) -> bool
    decreases a,
{
    match (a, b) {
        (List::Nil, List::Nil) => true,
        (List::Cons(x, xs), List::Cons(y, ys)) => o.entails(facts, equal(x, y)) && all_equal(o, facts, *xs, *ys),
        _ => false,
    }
}

/// The function type that a signature of the surface syntax stands for in
/// a scope.
pub open spec fn signature(named: WeakNameList, terms: Rc<Scope<Term>>, typ: crate::parse::types::NegTyp) -> Fun<
    NegTyp,
> {
    Fun {
        tau: Rc::new(super::words(typ.args.val.names@)),
        span: Some(typ.args.span),
        fun: NegTyp::Declared { named, terms, args: typ.args, ret: typ.ret },
    }
}

/// The resource that a name in a type stands for: the owned byte, or a
/// named resource. A name that is set aside and is not the owned byte
/// stands for nothing.
pub open spec fn resource_of(named: WeakNameList, name: Seq<char>) -> Option<Resource> {
    if name == "@byte"@ {
        Some(Resource::Owned)
    } else if reserved(name) {
        None
    } else {
        match named.0.get(name) {
            Some(id) => Some(Resource::Named(id)),
            None => None,
        }
    }
}

/// The failure of an obligation that cannot even be put to a context: a
/// name in it stands for nothing, `@byte` has not exactly one argument, or
/// a value in it has no term. Such an obligation fails before the context
/// is touched.
pub open spec fn refused(named: WeakNameList, terms: Rc<Scope<Term>>, c: Constraint) -> Option<ErrorKind> {
    match c {
        Constraint::Forall(f) => match (
            resource_of(named, f.named@),
            term_of(f.cond.lower(terms.bind_indices(f.names@, 0))),
        ) {
            (None, _) => Some(ErrorKind::Unbound),
            (_, Err(kind)) => Some(kind),
            _ => None,
        },
        Constraint::Assert(p) => match term_of(p.lower(*terms)) {
            Err(kind) => Some(kind),
            _ => None,
        },
        Constraint::Switch(s) => match (
            named.0.get(s.named@),
            term_of(s.cond.lower(*terms)),
            terms_of(s.args@, *terms, s.args@.len() as int),
        ) {
            (None, _, _) => Some(ErrorKind::Unbound),
            (_, Err(kind), _) => Some(kind),
            (_, _, Err(kind)) => Some(kind),
            _ => None,
        },
        Constraint::Func(v, _) => match term_of(v.lower(*terms)) {
            Err(kind) => Some(kind),
            _ => None,
        },
        Constraint::Builtin(_, call) => match call.func {
            None => Some(ErrorKind::Unbound),
            Some(name) => if name@ == "@byte"@ {
                if call.args@.len() != 1 {
                    Some(ErrorKind::Arity)
                } else {
                    match term_of(call.args@[0].lower(*terms)) {
                        Err(kind) => Some(kind),
                        _ => None,
                    }
                }
            } else if reserved(name@) {
                Some(ErrorKind::Unbound)
            } else {
                match (named.0.get(name@), terms_of(call.args@, *terms, call.args@.len() as int)) {
                    (None, _) => Some(ErrorKind::Unbound),
                    (_, Err(kind)) => Some(kind),
                    _ => None,
                }
            },
        },
    }
}

/// Whether a run of obligations that failed stopped as `reached` says: at
/// an obligation of the type, and, where that obligation is refused, with
/// the context `left` that the obligations before it left.
pub open spec fn stopped(
    reached: (int, State, Rc<Scope<Term>>),
    named: WeakNameList,
    parts: Seq<Spanned<Constraint>>,
    left: State,
) -> bool {
    &&& 0 <= reached.0 < parts.len()
    &&& refused(named, reached.2, parts[reached.0].val) is Some ==> left == reached.1
}

impl State {
    pub open spec fn owned<O: Oracle>(self, o: &O, heap: Heap, ptr: Term, tau: Sort) -> Step<Term> {
        match heap {
            Heap::Consume => self.consume_owned(o, ptr, tau),
            Heap::Produce => self.produce_owned(ptr, tau),
        }
    }

    pub open spec fn family<O: Oracle>(self, o: &O, heap: Heap, want: Forall) -> Step<()> {
        match heap {
            Heap::Consume => self.consume_forall(o, want),
            Heap::Produce => self.produce_forall(want),
        }
    }

    /// The first conditional resource from position `i` on that is the one
    /// asked for: the same named resource, and a condition and arguments
    /// that the oracle grants to be equal.
    pub open spec fn find_cond<O: Oracle>(self, o: &O, want: Cond, i: int) -> Option<int>
        decreases self.cond.len() - i,
    {
        if 0 <= i < self.cond.len() {
            let have = self.cond[i];
            if have.named == want.named && o.entails(self.facts, equal(have.cond, want.cond)) && all_equal(
                o,
                self.facts,
                *have.args,
                *want.args,
            ) {
                Some(i)
            } else {
                self.find_cond(o, want, i + 1)
            }
        } else {
            None
        }
    }

    /// Meets the parts of the named resource `id` at `args`. Each unfolding
    /// inside another uses up one unit of `fuel`.
    pub open spec fn unfold<O: Oracle>(
        self,
        o: &O,
        names: Seq<Name>,
        heap: Heap,
        id: usize,
        args: Seq<Term>,
        fuel: nat,
    ) -> Run<()>
        decreases fuel, 1int, 0int,
    {
        if id >= names.len() {
            fail(ErrorKind::Unbound, None)
        } else if fuel == 0 {
            fail(ErrorKind::Limit, None)
        } else {
            self.apply_pos(o, names, heap, names[id as int].typ, args, (fuel - 1) as nat)
        }
    }

    /// Looks at the conditional resources below position `i`, from the last
    /// to the first. One whose condition the oracle grants is replaced by
    /// its parts; one whose condition the oracle denies is dropped; the
    /// others stay.
    pub open spec fn settle<O: Oracle>(self, o: &O, names: Seq<Name>, i: nat, fuel: nat) -> Run<()>
        decreases fuel, 2int, i,
    {
        if i == 0 {
            Ok((self, ()))
        } else {
            let k = (i - 1) as nat;
            if k >= self.cond.len() {
                self.settle(o, names, k, fuel)
            } else {
                let c = self.cond[k as int];
                let rest = State { cond: self.cond.remove(k as int), ..self };
                if o.entails(self.facts, c.cond) {
                    match locate(rest.unfold(o, names, Heap::Produce, c.named, c.args.seq(), fuel), c.span) {
                        Ok((st, _)) => st.settle(o, names, k, fuel),
                        Err(e) => Err(e),
                    }
                } else if o.entails(self.facts, denied(c.cond)) {
                    rest.settle(o, names, k, fuel)
                } else {
                    self.settle(o, names, k, fuel)
                }
            }
        }
    }

    /// Meets a proposition: to consume it is to have the oracle grant it; to
    /// produce it is to add it to the facts and to settle the conditional
    /// resources that it decides.
    pub open spec fn assert_prop<O: Oracle>(self, o: &O, names: Seq<Name>, heap: Heap, phi: Term, fuel: nat) -> Run<
        (),
    >
        decreases fuel, 3int, 0int,
    {
        match heap {
            Heap::Consume => lift(self.consume_assert(o, phi)),
            Heap::Produce => if phi.sort() != Sort::Bool {
                fail(ErrorKind::Sort, None)
            } else {
                (State { facts: self.facts.push(phi), ..self }).settle(o, names, self.cond.len(), fuel)
            },
        }
    }

    /// Meets a conditional resource. To consume it, the first one held that
    /// is the one asked for leaves the state; failing that, its parts are
    /// consumed where the oracle grants its condition, nothing is where the
    /// oracle denies it, and it is absent otherwise. To produce it, its parts
    /// are produced where the oracle grants its condition, nothing is where
    /// the oracle denies it, and it is held back otherwise.
    pub open spec fn switch<O: Oracle>(self, o: &O, names: Seq<Name>, heap: Heap, c: Cond, fuel: nat) -> Run<()>
        decreases fuel, 3int, 0int,
    {
        locate(
            match heap {
                Heap::Consume => match self.find_cond(o, c, 0) {
                    Some(i) => Ok((State { cond: self.cond.remove(i), ..self }, ())),
                    None => if o.entails(self.facts, c.cond) {
                        self.unfold(o, names, heap, c.named, c.args.seq(), fuel)
                    } else if o.entails(self.facts, denied(c.cond)) {
                        Ok((self, ()))
                    } else {
                        fail(ErrorKind::Absent, None)
                    },
                },
                Heap::Produce => if o.entails(self.facts, c.cond) {
                    self.unfold(o, names, heap, c.named, c.args.seq(), fuel)
                } else if o.entails(self.facts, denied(c.cond)) {
                    Ok((self, ()))
                } else {
                    Ok((State { cond: self.cond.push(c), ..self }, ()))
                },
            },
            c.span,
        )
    }

    /// Meets the obligation that the value at `ptr` is a function of type
    /// `typ`. To produce it is to record it. To consume it, the first
    /// function value known at a provably equal address must have a
    /// signature that is a subtype of `typ`; that is checked in a state that
    /// holds nothing, so a function value gives no access to what the
    /// context holds. The check uses up one unit of `fuel`.
    pub open spec fn func<O: Oracle>(
        self,
        o: &O,
        names: Seq<Name>,
        heap: Heap,
        ptr: Term,
        typ: Fun<NegTyp>,
        fuel: nat,
    ) -> Run<()>
        decreases fuel, 3int, 0int,
    {
        match heap {
            Heap::Produce => Ok((State { funcs: self.funcs.push(FuncDef { ptr, typ }), ..self }, ())),
            Heap::Consume => match self.find_func(o, ptr, 0) {
                None => fail(ErrorKind::Absent, None),
                Some(i) => if fuel == 0 {
                    fail(ErrorKind::Limit, None)
                } else {
                    match self.without_alloc().sub_neg(o, names, self.funcs[i].typ, typ, (fuel - 1) as nat) {
                        Ok(_) => Ok((self, ())),
                        Err(e) => Err(e),
                    }
                },
            },
        }
    }

    /// Meets one obligation of a type of the surface syntax, written at
    /// `span`, where `terms` says what the names stand for. The result holds
    /// the scope that the following obligations see.
    pub open spec fn part<O: Oracle>(
        self,
        o: &O,
        names: Seq<Name>,
        heap: Heap,
        named: WeakNameList,
        terms: Rc<Scope<Term>>,
        c: Constraint,
        span: Span,
        fuel: nat,
    ) -> Run<Rc<Scope<Term>>>
        decreases fuel, 4int, 0int,
    {
        match c {
            Constraint::Forall(f) => match (
                resource_of(named, f.named@),
                term_of(f.cond.lower(terms.bind_indices(f.names@, 0))),
            ) {
                (None, _) => fail(ErrorKind::Unbound, None),
                (_, Err(kind)) => fail(kind, None),
                (Some(res), Ok(body)) => match lift(
                    self.family(
                        o,
                        heap,
                        Forall { named: res, mask: FuncTerm { arity: f.names.len(), body }, span: Some(span) },
                    ),
                ) {
                    Ok((st, _)) => Ok((st, terms)),
                    Err(e) => Err(e),
                },
            },
            Constraint::Assert(p) => match term_of(p.lower(*terms)) {
                Err(kind) => fail(kind, None),
                Ok(phi) => match self.assert_prop(o, names, heap, phi, fuel) {
                    Ok((st, _)) => Ok((st, terms)),
                    Err(e) => Err(e),
                },
            },
            Constraint::Switch(s) => match (
                named.0.get(s.named@),
                term_of(s.cond.lower(*terms)),
                terms_of(s.args@, *terms, s.args@.len() as int),
            ) {
                (None, _, _) => fail(ErrorKind::Unbound, None),
                (_, Err(kind), _) => fail(kind, None),
                (_, _, Err(kind)) => fail(kind, None),
                (Some(id), Ok(cond), Ok(args)) => match self.switch(
                    o,
                    names,
                    heap,
                    Cond { named: id, cond, args: Rc::new(List::of(args, 0)), span: Some(span) },
                    fuel,
                ) {
                    Ok((st, _)) => Ok((st, terms)),
                    Err(e) => Err(e),
                },
            },
            Constraint::Func(v, typ) => match term_of(v.lower(*terms)) {
                Err(kind) => fail(kind, None),
                Ok(ptr) => match self.func(o, names, heap, ptr, signature(named, terms, typ), fuel) {
                    Ok((st, _)) => Ok((st, terms)),
                    Err(e) => Err(e),
                },
            },
            Constraint::Builtin(new_name, call) => match call.func {
                None => fail(ErrorKind::Unbound, None),
                Some(name) => if name@ == "@byte"@ {
                    if call.args@.len() != 1 {
                        fail(ErrorKind::Arity, None)
                    } else {
                        match term_of(call.args@[0].lower(*terms)) {
                            Err(kind) => fail(kind, None),
                            Ok(ptr) => match lift(self.owned(o, heap, ptr, Sort::Nat)) {
                                Ok((st, value)) => match new_name {
                                    Some(n) => Ok((st, Rc::new(Scope::Bind(n, value, terms)))),
                                    None => Ok((st, terms)),
                                },
                                Err(e) => Err(e),
                            },
                        }
                    }
                } else if reserved(name@) {
                    fail(ErrorKind::Unbound, None)
                } else {
                    match (named.0.get(name@), terms_of(call.args@, *terms, call.args@.len() as int)) {
                        (None, _) => fail(ErrorKind::Unbound, None),
                        (_, Err(kind)) => fail(kind, None),
                        (Some(id), Ok(args)) => match self.unfold(o, names, heap, id, args, fuel) {
                            Ok((st, _)) => Ok((st, terms)),
                            Err(e) => Err(e),
                        },
                    }
                },
            },
        }
    }

    /// Meets the obligations of a type of the surface syntax from position
    /// `i` on, in order. A failure has the place of the obligation that it
    /// came from, unless it has a place of its own.
    pub open spec fn parts<O: Oracle>(
        self,
        o: &O,
        names: Seq<Name>,
        heap: Heap,
        named: WeakNameList,
        terms: Rc<Scope<Term>>,
        parts: Seq<Spanned<Constraint>>,
        i: int,
        fuel: nat,
    ) -> Run<Rc<Scope<Term>>>
        decreases fuel, 5int, parts.len() - i,
    {
        if 0 <= i < parts.len() {
            match locate(
                self.part(o, names, heap, named, terms, parts[i].val, parts[i].span, fuel),
                Some(parts[i].span),
            ) {
                Ok((st, scope)) => st.parts(o, names, heap, named, scope, parts, i + 1, fuel),
                Err(e) => Err(e),
            }
        } else {
            Ok((self, terms))
        }
    }

    /// How far the obligations of a type get from position `i` on: the
    /// position of the first one that fails, or the number of obligations
    /// where none does, with the state and the scope that the obligations
    /// before it left. The obligations behind the one that fails are never
    /// met.
    pub open spec fn reach<O: Oracle>(
        self,
        o: &O,
        names: Seq<Name>,
        heap: Heap,
        named: WeakNameList,
        terms: Rc<Scope<Term>>,
        parts: Seq<Spanned<Constraint>>,
        i: int,
        fuel: nat,
    ) -> (int, State, Rc<Scope<Term>>)
        decreases parts.len() - i,
    {
        if 0 <= i < parts.len() {
            match self.part(o, names, heap, named, terms, parts[i].val, parts[i].span, fuel) {
                Ok((st, scope)) => st.reach(o, names, heap, named, scope, parts, i + 1, fuel),
                Err(_) => (i, self, terms),
            }
        } else {
            (i, self, terms)
        }
    }

    /// Whether a conditional resource can neither be found among those that
    /// wait nor be decided.
    pub open spec fn undecided<O: Oracle>(self, o: &O, c: Cond) -> bool {
        &&& self.find_cond(o, c, 0) is None
        &&& !o.entails(self.facts, c.cond)
        &&& !o.entails(self.facts, denied(c.cond))
    }

    /// Applies a result type to terms: the number of terms must be the
    /// number of its parameters, and its obligations are met on the state.
    pub open spec fn apply_pos<O: Oracle>(
        self,
        o: &O,
        names: Seq<Name>,
        heap: Heap,
        fun: Fun<PosTyp>,
        args: Seq<Term>,
        fuel: nat,
    ) -> Run<()>
        decreases fuel, 6int, 0int,
    {
        if args.len() != fun.arity() {
            fail(ErrorKind::Arity, fun.span)
        } else {
            locate(
                match fun.fun {
                    PosTyp::Declared { named, terms, typ } => match self.parts(
                        o,
                        names,
                        heap,
                        named,
                        Rc::new(terms.bind_all(typ.val.names@, args, 0)),
                        typ.val.parts@,
                        0,
                        fuel,
                    ) {
                        Ok((st, _)) => Ok((st, ())),
                        Err(e) => Err(e),
                    },
                    PosTyp::Holds(phi) => self.assert_prop(o, names, heap, phi, fuel),
                    PosTyp::Packed { named, unpack, args: at } => if unpack {
                        self.unfold(o, names, heap, named, at.seq(), fuel)
                    } else {
                        lift(self.family(o, heap, exactly(named, at.seq())))
                    },
                },
                fun.span,
            )
        }
    }

    /// Applies a function type to terms: the number of terms must be the
    /// number of its parameters, the obligations on the arguments are met on
    /// the state, and the result type comes back.
    pub open spec fn apply_neg<O: Oracle>(
        self,
        o: &O,
        names: Seq<Name>,
        heap: Heap,
        fun: Fun<NegTyp>,
        args: Seq<Term>,
        fuel: nat,
    ) -> Run<Fun<PosTyp>>
        decreases fuel, 7int, 0int,
    {
        if args.len() != fun.arity() {
            fail(ErrorKind::Arity, fun.span)
        } else {
            locate(
                match fun.fun {
                    NegTyp::Declared { named, terms, args: a, ret } => match self.parts(
                        o,
                        names,
                        heap,
                        named,
                        Rc::new(terms.bind_all(a.val.names@, args, 0)),
                        a.val.parts@,
                        0,
                        fuel,
                    ) {
                        Ok((st, scope)) => Ok(
                            (
                                st,
                                Fun {
                                    tau: Rc::new(super::words(ret.val.names@)),
                                    span: Some(ret.span),
                                    fun: PosTyp::Declared { named, terms: scope, typ: ret },
                                },
                            ),
                        ),
                        Err(e) => Err(e),
                    },
                    NegTyp::Arrow { arg, ret } => match self.apply_pos(o, names, heap, *arg, args, fuel) {
                        Ok((st, _)) => Ok((st, *ret)),
                        Err(e) => Err(e),
                    },
                    NegTyp::Pack { named, unpack } => match (if unpack {
                        lift(self.family(o, heap, exactly(named, args)))
                    } else {
                        self.unfold(o, names, heap, named, args, fuel)
                    }) {
                        Ok((st, _)) => Ok(
                            (
                                st,
                                Fun {
                                    tau: Rc::new(List::Nil),
                                    span: fun.span,
                                    fun: PosTyp::Packed { named, unpack, args: Rc::new(List::of(args, 0)) },
                                },
                            ),
                        ),
                        Err(e) => Err(e),
                    },
                },
                fun.span,
            )
        }
    }

    /// Whether `res` gives at least what `p` asks for: the two have as many
    /// parameters; with fresh variables for them, what `res` says is
    /// produced, and what `p` says is consumed from that. A failure to
    /// consume is a failure of subtyping. What is left over is of no
    /// concern.
    pub open spec fn sub_pos<O: Oracle>(
        self,
        o: &O,
        names: Seq<Name>,
        res: Fun<PosTyp>,
        p: Fun<PosTyp>,
        fuel: nat,
    ) -> Result<(), ConsumeErr>
        decreases fuel, 8int, 0int,
    {
        if res.arity() != p.arity() {
            fail(ErrorKind::Subtype, p.span)
        } else {
            match self.fresh(res.arity()) {
                None => fail(ErrorKind::Limit, p.span),
                Some((st, terms)) => match st.apply_pos(o, names, Heap::Produce, res, terms, fuel) {
                    Err(e) => Err(e),
                    Ok((st, _)) => match st.apply_pos(o, names, Heap::Consume, p, terms, fuel) {
                        Ok(_) => Ok(()),
                        Err(e) => Err(ConsumeErr { kind: ErrorKind::Subtype, span: e.span }),
                    },
                },
            }
        }
    }

    /// Whether a function of type `have` can stand where one of type `want`
    /// is asked for: the two have as many parameters; with fresh variables
    /// for them, what `want` says of the arguments is produced, what `have`
    /// asks of them is consumed from that, and what `have` returns must give
    /// at least what `want` returns.
    pub open spec fn sub_neg<O: Oracle>(
        self,
        o: &O,
        names: Seq<Name>,
        have: Fun<NegTyp>,
        want: Fun<NegTyp>,
        fuel: nat,
    ) -> Result<(), ConsumeErr>
        decreases fuel, 9int, 0int,
    {
        if have.arity() != want.arity() {
            fail(ErrorKind::Subtype, want.span)
        } else {
            match self.fresh(want.arity()) {
                None => fail(ErrorKind::Limit, want.span),
                Some((st, terms)) => match st.apply_neg(o, names, Heap::Produce, want, terms, fuel) {
                    Err(e) => Err(e),
                    Ok((st, wanted)) => match st.apply_neg(o, names, Heap::Consume, have, terms, fuel) {
                        Err(e) => Err(ConsumeErr { kind: ErrorKind::Subtype, span: e.span }),
                        Ok((st, given)) => st.sub_pos(o, names, given, wanted, fuel),
                    },
                },
            }
        }
    }
}

/// Gives a failure that has no place the place `span`.
pub fn at<T>(r: Result<T, ConsumeErr>, span: Option<Span>) -> (q: Result<T, ConsumeErr>)
    ensures
        q == locate(r, span),
{
    match r {
        Err(e) => if e.span.is_none() {
            Err(ConsumeErr { kind: e.kind, span })
        } else {
            Err(e)
        },
        Ok(v) => Ok(v),
    }
}

/// Gives a failure the place `span`.
pub fn blamed<T>(r: Result<T, ConsumeErr>, span: Option<Span>) -> (q: Result<T, ConsumeErr>)
    ensures
        q == blame(r, span),
{
    match r {
        Err(e) => Err(ConsumeErr { kind: e.kind, span }),
        Ok(v) => Ok(v),
    }
}

fn lifted<T>(r: Result<T, ErrorKind>) -> (q: Result<T, ConsumeErr>)
    ensures
        match r {
            Ok(v) => q == Ok::<T, ConsumeErr>(v),
            Err(kind) => q == Err::<T, ConsumeErr>(ConsumeErr { kind, span: None }),
        },
{
    match r {
        Ok(v) => Ok(v),
        Err(kind) => Err(ConsumeErr { kind, span: None }),
    }
}

fn is_byte(name: &String) -> (b: bool)
    ensures
        b == (name@ == "@byte"@),
{
    let byte = "@byte".to_owned();
    *name == byte
}

fn find_resource(named: &WeakNameList, name: &String) -> (r: Option<Resource>)
    ensures
        r == resource_of(*named, name@),
{
    if is_byte(name) {
        Some(Resource::Owned)
    } else if is_reserved(name) {
        None
    } else {
        match named.0.lookup(name) {
            Some(id) => Some(Resource::Named(*id)),
            None => None,
        }
    }
}

/// The proposition that a proposition is false.
pub fn deny(phi: &Term) -> (t: Term)
    ensures
        t == denied(*phi),
{
    BinOp::Eq.apply(phi, &Term::Nat(0, phi.get_size()))
}

/// The family that holds the named resource at exactly these arguments.
pub fn exact(id: usize, args: &Vec<Term>) -> (f: Forall)
    ensures
        f == exactly(id, args@),
{
    let mut body = Term::Nat(1, 32);
    let mut i: usize = 0;
    while i < args.len()
        invariant
            i <= args.len(),
            body == exact_mask(args@, i as int),
        decreases args.len() - i,
    {
        body = BinOp::And.apply(&body, &Term::Bound(i, 32).eq(&args[i]));
        i += 1;
    }
    Forall { named: Resource::Named(id), mask: FuncTerm { arity: args.len(), body }, span: None }
}

impl SubContext {
    /// Takes the cell at `ptr` or makes one, and returns its value.
    pub fn owned<O: Oracle>(&mut self, sess: &Session<O>, heap: Heap, ptr: &Term, tau: Sort) -> (r: Result<
        Term,
        ErrorKind,
    >)
        ensures
            agrees(r, final(self)@, old(self)@.owned(&sess.oracle, heap, *ptr, tau)),
    {
        match heap {
            Heap::Consume => self.consume_owned(sess, ptr, tau),
            Heap::Produce => self.produce_owned(ptr, tau),
        }
    }

    /// Takes a family or records one.
    pub fn family<O: Oracle>(&mut self, sess: &Session<O>, heap: Heap, want: &Forall) -> (r: Result<(), ErrorKind>)
        ensures
            agrees(r, final(self)@, old(self)@.family(&sess.oracle, heap, *want)),
    {
        match heap {
            Heap::Consume => self.consume_forall(sess, want),
            Heap::Produce => self.produce_forall(want),
        }
    }

    fn all_equal<O: Oracle>(&self, sess: &Session<O>, a: &List<Term>, b: &List<Term>) -> (r: bool)
        ensures
            r == all_equal(&sess.oracle, self@.facts, *a, *b),
        decreases a,
    {
        match (a, b) {
            (List::Nil, List::Nil) => true,
            (List::Cons(x, xs), List::Cons(y, ys)) => self.is_always_eq(sess, x, y) && self.all_equal(sess, xs, ys),
            _ => false,
        }
    }

    fn find_cond<O: Oracle>(&self, sess: &Session<O>, want: &Cond) -> (r: Option<usize>)
        ensures
            match r {
                Some(i) => self@.find_cond(&sess.oracle, *want, 0) == Some(i as int) && i < self.cond.len(),
                None => self@.find_cond(&sess.oracle, *want, 0) is None,
            },
    {
        let mut i: usize = 0;
        while i < self.cond.len()
            invariant
                i <= self.cond.len(),
                self@.find_cond(&sess.oracle, *want, i as int) == self@.find_cond(&sess.oracle, *want, 0),
            decreases self.cond.len() - i,
        {
            let have = &self.cond[i];
            if have.named == want.named && self.is_always_eq(sess, &have.cond, &want.cond) && self.all_equal(
                sess,
                &have.args,
                &want.args,
            ) {
                return Some(i);
            }
            i += 1;
        }
        None
    }

    /// Meets the parts of a named resource at the given arguments.
    pub fn unfold<O: Oracle>(&mut self, sess: &Session<O>, heap: Heap, id: usize, args: &Vec<Term>, fuel: usize) -> (r:
        Result<(), ConsumeErr>)
        ensures
            runs(r, final(self)@, old(self)@.unfold(&sess.oracle, sess.names@, heap, id, args@, fuel as nat)),
        decreases fuel, 1int, 0int,
    {
        if id >= sess.names.len() {
            return Err(ConsumeErr { kind: ErrorKind::Unbound, span: None });
        }
        if fuel == 0 {
            return Err(ConsumeErr { kind: ErrorKind::Limit, span: None });
        }
        self.apply_pos(sess, heap, &sess.names[id].typ, args, fuel - 1)
    }

    /// Settles the conditional resources below position `i`.
    pub fn settle<O: Oracle>(&mut self, sess: &Session<O>, i: usize, fuel: usize) -> (r: Result<(), ConsumeErr>)
        ensures
            runs(r, final(self)@, old(self)@.settle(&sess.oracle, sess.names@, i as nat, fuel as nat)),
        decreases fuel, 2int, i,
    {
        if i == 0 {
            return Ok(());
        }
        let k = i - 1;
        if k >= self.cond.len() {
            return self.settle(sess, k, fuel);
        }
        if sess.oracle.prove(&self.facts, &self.cond[k].cond) {
            let c = self.cond.remove(k);
            let args = c.args.to_vec();
            match at(self.unfold(sess, Heap::Produce, c.named, &args, fuel), c.span) {
                Ok(()) => self.settle(sess, k, fuel),
                Err(e) => Err(e),
            }
        } else if sess.oracle.prove(&self.facts, &deny(&self.cond[k].cond)) {
            let _ = self.cond.remove(k);
            self.settle(sess, k, fuel)
        } else {
            self.settle(sess, k, fuel)
        }
    }

    /// Meets a proposition.
    pub fn assert_prop<O: Oracle>(&mut self, sess: &Session<O>, heap: Heap, phi: &Term, fuel: usize) -> (r: Result<
        (),
        ConsumeErr,
    >)
        ensures
            runs(r, final(self)@, old(self)@.assert_prop(&sess.oracle, sess.names@, heap, *phi, fuel as nat)),
        decreases fuel, 3int, 0int,
    {
        match heap {
            Heap::Consume => lifted(self.consume_assert(sess, phi)),
            Heap::Produce => {
                if phi.get_sort() != Sort::Bool {
                    return Err(ConsumeErr { kind: ErrorKind::Sort, span: None });
                }
                self.facts.push(phi.clone());
                let n = self.cond.len();
                self.settle(sess, n, fuel)
            },
        }
    }

    /// Meets the proposition that two terms are equal.
    pub fn assert_eq<O: Oracle>(&mut self, sess: &Session<O>, heap: Heap, x: &Term, y: &Term, fuel: usize) -> (r:
        Result<(), ConsumeErr>)
        ensures
            runs(
                r,
                final(self)@,
                old(self)@.assert_prop(&sess.oracle, sess.names@, heap, equal(*x, *y), fuel as nat),
            ),
    {
        self.assert_prop(sess, heap, &x.eq(y), fuel)
    }

    /// Meets a conditional resource. A conditional resource that is to be
    /// consumed and can neither be found nor be decided is absent, and the
    /// context stays as it is: nothing is held back on the consuming side.
    pub fn switch<O: Oracle>(&mut self, sess: &Session<O>, heap: Heap, c: &Cond, fuel: usize) -> (r: Result<
        (),
        ConsumeErr,
    >)
        ensures
            runs(r, final(self)@, old(self)@.switch(&sess.oracle, sess.names@, heap, *c, fuel as nat)),
            heap == Heap::Consume && old(self)@.undecided(&sess.oracle, *c) ==> final(self)@ == old(self)@ && r
                == Err::<(), ConsumeErr>(ConsumeErr { kind: ErrorKind::Absent, span: c.span }),
        decreases fuel, 3int, 0int,
    {
        let found = match heap {
            Heap::Consume => self.find_cond(sess, c),
            Heap::Produce => None,
        };
        let r = match found {
            Some(i) => {
                let _ = self.cond.remove(i);
                Ok(())
            },
            None => {
                if sess.oracle.prove(&self.facts, &c.cond) {
                    let args = c.args.to_vec();
                    self.unfold(sess, heap, c.named, &args, fuel)
                } else if sess.oracle.prove(&self.facts, &deny(&c.cond)) {
                    Ok(())
                } else {
                    match heap {
                        Heap::Consume => Err(ConsumeErr { kind: ErrorKind::Absent, span: None }),
                        Heap::Produce => {
                            self.cond.push(c.clone());
                            Ok(())
                        },
                    }
                }
            },
        };
        at(r, c.span)
    }

    /// Meets the obligation that the value at an address is a function of a
    /// given type.
    pub fn func<O: Oracle>(
        &mut self,
        sess: &Session<O>,
        heap: Heap,
        ptr: &Term,
        typ: &Fun<NegTyp>,
        fuel: usize,
    ) -> (r: Result<(), ConsumeErr>)
        ensures
            runs(r, final(self)@, old(self)@.func(&sess.oracle, sess.names@, heap, *ptr, *typ, fuel as nat)),
        decreases fuel, 3int, 0int,
    {
        match heap {
            Heap::Produce => {
                self.funcs.push(FuncDef { ptr: ptr.clone(), typ: typ.clone() });
                Ok(())
            },
            Heap::Consume => {
                let i = match self.find_func(sess, ptr) {
                    Some(i) => i,
                    None => {
                        return Err(ConsumeErr { kind: ErrorKind::Absent, span: None });
                    },
                };
                if fuel == 0 {
                    return Err(ConsumeErr { kind: ErrorKind::Limit, span: None });
                }
                // a function value gives no access to what the context holds
                let this = self.without_alloc();
                this.sub_neg_type(sess, &self.funcs[i].typ, typ, fuel - 1)
            },
        }
    }

    /// Checks that `res` gives at least what `p` asks for.
    pub fn sub_pos<O: Oracle>(self, sess: &Session<O>, res: &Fun<PosTyp>, p: &Fun<PosTyp>, fuel: usize) -> (r: Result<
        (),
        ConsumeErr,
    >)
        ensures
            r == self@.sub_pos(&sess.oracle, sess.names@, *res, *p, fuel as nat),
        decreases fuel, 8int, 0int,
    {
        let mut this = self;
        let params = res.count();
        if params != p.count() {
            return Err(ConsumeErr { kind: ErrorKind::Subtype, span: p.span });
        }
        let terms = match this.fresh(params) {
            Some(terms) => terms,
            None => {
                return Err(ConsumeErr { kind: ErrorKind::Limit, span: p.span });
            },
        };
        this.apply_pos(sess, Heap::Produce, res, &terms, fuel)?;
        match this.apply_pos(sess, Heap::Consume, p, &terms, fuel) {
            Ok(_) => Ok(()),
            Err(e) => Err(ConsumeErr { kind: ErrorKind::Subtype, span: e.span }),
        }
    }

    /// Checks that a function of type `have` can stand where one of type
    /// `want` is asked for.
    pub fn sub_neg_type<O: Oracle>(
        self,
        sess: &Session<O>,
        have: &Fun<NegTyp>,
        want: &Fun<NegTyp>,
        fuel: usize,
    ) -> (r: Result<(), ConsumeErr>)
        ensures
            r == self@.sub_neg(&sess.oracle, sess.names@, *have, *want, fuel as nat),
        decreases fuel, 9int, 0int,
    {
        let mut this = self;
        let params = want.count();
        if have.count() != params {
            return Err(ConsumeErr { kind: ErrorKind::Subtype, span: want.span });
        }
        let terms = match this.fresh(params) {
            Some(terms) => terms,
            None => {
                return Err(ConsumeErr { kind: ErrorKind::Limit, span: want.span });
            },
        };
        let wanted = this.apply_neg(sess, Heap::Produce, want, &terms, fuel)?;
        let given = match this.apply_neg(sess, Heap::Consume, have, &terms, fuel) {
            Ok(given) => given,
            Err(e) => {
                return Err(ConsumeErr { kind: ErrorKind::Subtype, span: e.span });
            },
        };
        this.sub_pos(sess, &given, &wanted, fuel)
    }

    /// Meets one obligation of a type of the surface syntax. An obligation
    /// that is refused fails with the kind of its refusal and leaves the
    /// context as it is.
    pub fn part<O: Oracle>(
        &mut self,
        sess: &Session<O>,
        heap: Heap,
        named: &WeakNameList,
        terms: Rc<Scope<Term>>,
        c: &Constraint,
        span: Span,
        fuel: usize,
    ) -> (r: Result<Rc<Scope<Term>>, ConsumeErr>)
        ensures
            runs(
                r,
                final(self)@,
                old(self)@.part(&sess.oracle, sess.names@, heap, *named, terms, *c, span, fuel as nat),
            ),
            refused(*named, terms, *c) matches Some(kind) ==> final(self)@ == old(self)@ && r == Err::<
                Rc<Scope<Term>>,
                ConsumeErr,
            >(ConsumeErr { kind, span: None }),
        decreases fuel, 4int, 0int,
    {
        match c {
            Constraint::Forall(f) => {
                let res = match find_resource(named, &f.named) {
                    Some(res) => res,
                    None => {
                        return Err(ConsumeErr { kind: ErrorKind::Unbound, span: None });
                    },
                };
                let inner = Scope::extend_indices(&terms, &f.names);
                let body = lifted(prop_term(&f.cond, &inner))?;
                let want = Forall { named: res, mask: FuncTerm { arity: f.names.len(), body }, span: Some(span) };
                lifted(self.family(sess, heap, &want))?;
                Ok(terms)
            },
            Constraint::Assert(p) => {
                let phi = lifted(prop_term(p, &terms))?;
                self.assert_prop(sess, heap, &phi, fuel)?;
                Ok(terms)
            },
            Constraint::Switch(s) => {
                let id = match named.0.lookup(&s.named) {
                    Some(id) => *id,
                    None => {
                        return Err(ConsumeErr { kind: ErrorKind::Unbound, span: None });
                    },
                };
                let cond = lifted(prop_term(&s.cond, &terms))?;
                let args = lifted(value_terms(&s.args, &terms))?;
                let c = Cond { named: id, cond, args: List::from_vec(&args), span: Some(span) };
                self.switch(sess, heap, &c, fuel)?;
                Ok(terms)
            },
            Constraint::Func(v, typ) => {
                let ptr = lifted(value_term(v, &terms))?;
                let want = Fun {
                    tau: super::words_of(&typ.args.val.names),
                    span: Some(typ.args.span),
                    fun: NegTyp::Declared {
                        named: named.clone(),
                        terms: terms.clone(),
                        args: typ.args.clone(),
                        ret: typ.ret.clone(),
                    },
                };
                self.func(sess, heap, &ptr, &want, fuel)?;
                Ok(terms)
            },
            Constraint::Builtin(new_name, call) => {
                let name = match &call.func {
                    Some(name) => name,
                    None => {
                        return Err(ConsumeErr { kind: ErrorKind::Unbound, span: None });
                    },
                };
                if is_byte(name) {
                    if call.args.len() != 1 {
                        return Err(ConsumeErr { kind: ErrorKind::Arity, span: None });
                    }
                    let ptr = lifted(value_term(&call.args[0], &terms))?;
                    let value = lifted(self.owned(sess, heap, &ptr, Sort::Nat))?;
                    match new_name {
                        Some(n) => Ok(Scope::bind(&terms, n, value)),
                        None => Ok(terms),
                    }
                } else if is_reserved(name) {
                    Err(ConsumeErr { kind: ErrorKind::Unbound, span: None })
                } else {
                    let id = match named.0.lookup(name) {
                        Some(id) => *id,
                        None => {
                            return Err(ConsumeErr { kind: ErrorKind::Unbound, span: None });
                        },
                    };
                    let args = lifted(value_terms(&call.args, &terms))?;
                    self.unfold(sess, heap, id, &args, fuel)?;
                    Ok(terms)
                }
            },
        }
    }

    /// Meets the obligations of a type of the surface syntax from position
    /// `i` on. Where one of them fails, those before it have been met and
    /// those behind it are not; where it is refused, the context is the one
    /// that the obligations before it left.
    pub fn parts<O: Oracle>(
        &mut self,
        sess: &Session<O>,
        heap: Heap,
        named: &WeakNameList,
        terms: Rc<Scope<Term>>,
        parts: &Vec<Spanned<Constraint>>,
        i: usize,
        fuel: usize,
    ) -> (r: Result<Rc<Scope<Term>>, ConsumeErr>)
        ensures
            runs(
                r,
                final(self)@,
                old(self)@.parts(&sess.oracle, sess.names@, heap, *named, terms, parts@, i as int, fuel as nat),
            ),
            r is Err ==> stopped(
                old(self)@.reach(&sess.oracle, sess.names@, heap, *named, terms, parts@, i as int, fuel as nat),
                *named,
                parts@,
                final(self)@,
            ),
        decreases fuel, 5int, parts.len() - i,
    {
        if i < parts.len() {
            match at(self.part(sess, heap, named, terms, &parts[i].val, parts[i].span, fuel), Some(parts[i].span)) {
                Ok(scope) => self.parts(sess, heap, named, scope, parts, i + 1, fuel),
                Err(e) => Err(e),
            }
        } else {
            Ok(terms)
        }
    }

    /// Applies a result type to terms.
    pub fn apply_pos<O: Oracle>(
        &mut self,
        sess: &Session<O>,
        heap: Heap,
        fun: &Fun<PosTyp>,
        args: &Vec<Term>,
        fuel: usize,
    ) -> (r: Result<(), ConsumeErr>)
        ensures
            runs(r, final(self)@, old(self)@.apply_pos(&sess.oracle, sess.names@, heap, *fun, args@, fuel as nat)),
        decreases fuel, 6int, 0int,
    {
        if args.len() != fun.count() {
            return Err(ConsumeErr { kind: ErrorKind::Arity, span: fun.span });
        }
        let r = match &fun.fun {
            PosTyp::Declared { named, terms, typ } => {
                let scope = Scope::extend(terms, &typ.val.names, args);
                match self.parts(sess, heap, named, scope, &typ.val.parts, 0, fuel) {
                    Ok(_) => Ok(()),
                    Err(e) => Err(e),
                }
            },
            PosTyp::Holds(phi) => self.assert_prop(sess, heap, phi, fuel),
            PosTyp::Packed { named, unpack, args: at } => {
                let at = at.to_vec();
                if *unpack {
                    self.unfold(sess, heap, *named, &at, fuel)
                } else {
                    lifted(self.family(sess, heap, &exact(*named, &at)))
                }
            },
        };
        at(r, fun.span)
    }

    /// Applies a function type to terms and returns its result type.
    pub fn apply_neg<O: Oracle>(
        &mut self,
        sess: &Session<O>,
        heap: Heap,
        fun: &Fun<NegTyp>,
        args: &Vec<Term>,
        fuel: usize,
    ) -> (r: Result<Fun<PosTyp>, ConsumeErr>)
        ensures
            runs(r, final(self)@, old(self)@.apply_neg(&sess.oracle, sess.names@, heap, *fun, args@, fuel as nat)),
        decreases fuel, 7int, 0int,
    {
        if args.len() != fun.count() {
            return Err(ConsumeErr { kind: ErrorKind::Arity, span: fun.span });
        }
        let r = match &fun.fun {
            NegTyp::Declared { named, terms, args: a, ret } => {
                let scope = Scope::extend(terms, &a.val.names, args);
                match self.parts(sess, heap, named, scope, &a.val.parts, 0, fuel) {
                    Ok(scope) => Ok(
                        Fun {
                            tau: super::words_of(&ret.val.names),
                            span: Some(ret.span),
                            fun: PosTyp::Declared { named: named.clone(), terms: scope, typ: ret.clone() },
                        },
                    ),
                    Err(e) => Err(e),
                }
            },
            NegTyp::Arrow { arg, ret } => match self.apply_pos(sess, heap, arg, args, fuel) {
                Ok(()) => Ok((**ret).clone()),
                Err(e) => Err(e),
            },
            NegTyp::Pack { named, unpack } => {
                let met = if *unpack {
                    lifted(self.family(sess, heap, &exact(*named, args)))
                } else {
                    self.unfold(sess, heap, *named, args, fuel)
                };
                match met {
                    Ok(()) => Ok(
                        Fun {
                            tau: Rc::new(List::Nil),
                            span: fun.span,
                            fun: PosTyp::Packed { named: *named, unpack: *unpack, args: List::from_vec(args) },
                        },
                    ),
                    Err(e) => Err(e),
                }
            },
        };
        at(r, fun.span)
    }
}

impl Desugar {
    /// Meets the obligations of a type of the surface syntax on a context.
    /// The names that the obligations bind are in scope afterwards.
    pub fn convert_constraint<O: Oracle>(
        &mut self,
        parts: &Vec<Spanned<Constraint>>,
        ctx: &mut SubContext,
        heap: Heap,
        sess: &Session<O>,
    ) -> (r: Result<(), ConsumeErr>)
        ensures
            match r {
                Ok(()) => old(ctx)@.parts(
                    &sess.oracle,
                    sess.names@,
                    heap,
                    old(self).named,
                    old(self).terms,
                    parts@,
                    0,
                    sess.depth as nat,
                ) == Ok::<(State, Rc<Scope<Term>>), ConsumeErr>((final(ctx)@, final(self).terms)),
                Err(e) => old(ctx)@.parts(
                    &sess.oracle,
                    sess.names@,
                    heap,
                    old(self).named,
                    old(self).terms,
                    parts@,
                    0,
                    sess.depth as nat,
                ) == Err::<(State, Rc<Scope<Term>>), ConsumeErr>(e),
            },
            r is Err ==> stopped(
                old(ctx)@.reach(
                    &sess.oracle,
                    sess.names@,
                    heap,
                    old(self).named,
                    old(self).terms,
                    parts@,
                    0,
                    sess.depth as nat,
                ),
                old(self).named,
                parts@,
                final(ctx)@,
            ),
            r is Err ==> final(self).terms == old(self).terms,
            final(self).named == old(self).named,
            final(self).vars == old(self).vars,
            final(self).labels == old(self).labels,
    {
        let scope = ctx.parts(sess, heap, &self.named, self.terms.clone(), parts, 0, sess.depth)?;
        self.terms = scope;
        Ok(())
    }
}

} // verus!
