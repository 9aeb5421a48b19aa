//! The checker: walks an expression and checks it against a type, threading
//! the context through calls, branches and jumps.

use super::builtin::{binop_ok, Builtin};
use super::heap::{Heap, State, SubContext};
use super::list::List;
use super::oracle::Oracle;
use super::term::{BinOp, Free, Term};
use super::unfold::{at, blame, blamed, fail, locate, runs, Run};
use super::{
    lambdas_weight, BoundExpr, ConsumeErr, ErrorKind, Expr, Fun, Lambda, NegTyp, PosTyp, Session, Solved, Thunk,
    Value,
};
use std::rc::Rc;
use vstd::prelude::*;

verus! {

/// Pairs the items of two vectors of one length, position by position.
pub fn zip_eq<A, B>(a: Vec<A>, b: Vec<B>) -> (r: Vec<(A, B)>)
    requires
        a.len() == b.len(),
    ensures
        r@.len() == a@.len(),
        forall|i: int| 0 <= i < r@.len() ==> r@[i] == (a@[i], b@[i]),
{
    let mut a = a;
    let mut b = b;
    let ghost a0 = a@;
    let ghost b0 = b@;
    let mut back: Vec<(A, B)> = Vec::new();
    while a.len() > 0
        invariant
            a@.len() == b@.len(),
            a@.len() + back@.len() == a0.len(),
            a0.len() == b0.len(),
            a@ == a0.subrange(0, a@.len() as int),
            b@ == b0.subrange(0, b@.len() as int),
            forall|j: int| 0 <= j < back@.len() ==> back@[j] == (a0[a0.len() - 1 - j], b0[a0.len() - 1 - j]),
        decreases a.len(),
    {
        let x = a.pop().unwrap();
        let y = b.pop().unwrap();
        back.push((x, y));
        assert(a@ =~= a0.subrange(0, a@.len() as int));
        assert(b@ =~= b0.subrange(0, b@.len() as int));
    }
    let ghost rev = back@;
    let mut out: Vec<(A, B)> = Vec::new();
    while back.len() > 0
        invariant
            rev.len() == a0.len(),
            a0.len() == b0.len(),
            back@.len() + out@.len() == rev.len(),
            back@ == rev.subrange(0, back@.len() as int),
            forall|j: int| 0 <= j < rev.len() ==> rev[j] == (a0[a0.len() - 1 - j], b0[a0.len() - 1 - j]),
            forall|j: int| 0 <= j < out@.len() ==> out@[j] == (a0[j], b0[j]),
        decreases back.len(),
    {
        let p = back.pop().unwrap();
        out.push(p);
        assert(back@ =~= rev.subrange(0, back@.len() as int));
    }
    out
}

/// The function type from an argument type to a result type.
pub open spec fn arrow(arg: Fun<PosTyp>, ret: Fun<PosTyp>) -> Fun<NegTyp> {
    Fun { tau: arg.tau, span: arg.span, fun: NegTyp::Arrow { arg: Rc::new(arg), ret: Rc::new(ret) } }
}

/// The result type without parameters that asks for one proposition.
pub open spec fn holds(phi: Term) -> Fun<PosTyp> {
    Fun { tau: Rc::new(List::Nil), span: None, fun: PosTyp::Holds(phi) }
}

impl Fun<PosTyp> {
    /// The function type from this type to `ret`.
    pub fn arrow(self, ret: Fun<PosTyp>) -> (f: Fun<NegTyp>)
        ensures
            f == arrow(self, ret),
    {
        Fun {
            tau: self.tau.clone(),
            span: self.span,
            fun: NegTyp::Arrow { arg: Rc::new(self), ret: Rc::new(ret) },
        }
    }
}

/// The signature of what a call applies.
pub open spec fn infer_func<O: Oracle>(sess: &Session<O>, func: Thunk) -> Result<Fun<NegTyp>, ErrorKind> {
    match func {
        Thunk::Local(local) => Ok(local),
        Thunk::Builtin(Builtin::Read) => Ok(sess.builtins.read),
        Thunk::Builtin(Builtin::Write) => Ok(sess.builtins.write),
        Thunk::Builtin(Builtin::Alloc) => Ok(sess.builtins.alloc),
        Thunk::Builtin(Builtin::Pack(id, unpack)) => if id < sess.names@.len() {
            let typ = sess.names@[id as int].typ;
            Ok(Fun { tau: typ.tau, span: typ.span, fun: NegTyp::Pack { named: id, unpack } })
        } else {
            Err(ErrorKind::Unbound)
        },
    }
}

/// The proposition that guards branch `i` of a match on `term`: the last
/// branch takes every value from `i` on, the others the value `i`.
pub open spec fn guard(term: Term, i: nat, last: bool) -> Term {
    let at = Term::Nat(i as i64, term.size());
    if last {
        Term::Op(BinOp::LessEq, Rc::new(at), Rc::new(term))
    } else {
        Term::Op(BinOp::Eq, Rc::new(term), Rc::new(at))
    }
}

impl State {
    /// The term of an expression, each of its operations checked.
    pub open spec fn check_free<O: Oracle>(self, o: &O, free: Free<Term>) -> Result<Term, ErrorKind>
        decreases free,
    {
        match free {
            Free::Just(val, size) => Ok(Term::Nat(val, size)),
            Free::Var(t) => Ok(t),
            Free::BinOp { l, r, op } => match (self.check_free(o, *l), self.check_free(o, *r)) {
                (Err(e), _) => Err(e),
                (_, Err(e)) => Err(e),
                (Ok(l), Ok(r)) => match binop_ok(o, self.facts, op, l, r) {
                    Ok(_) => Ok(Term::Op(op, Rc::new(l), Rc::new(r))),
                    Err(e) => Err(e),
                },
            },
        }
    }

    /// The terms of a list of expressions, or the first failure among them.
    pub open spec fn calc_args<O: Oracle>(self, o: &O, inj: List<Free<Term>>) -> Result<Seq<Term>, ErrorKind>
        decreases inj,
    {
        match inj {
            List::Nil => Ok(Seq::empty()),
            List::Cons(f, rest) => match self.check_free(o, f) {
                Err(e) => Err(e),
                Ok(t) => match self.calc_args(o, *rest) {
                    Ok(s) => Ok(seq![t] + s),
                    Err(e) => Err(e),
                },
            },
        }
    }

    /// Takes what a function type says of its arguments for granted: fresh
    /// variables stand for the parameters, and the obligations on them are
    /// produced. The result holds the variables and the result type.
    pub open spec fn extract<O: Oracle>(self, sess: &Session<O>, n: Fun<NegTyp>) -> Run<(Seq<Term>, Fun<PosTyp>)> {
        match self.fresh(n.arity()) {
            None => fail(ErrorKind::Limit, n.span),
            Some((st, terms)) => match st.apply_neg(
                &sess.oracle,
                sess.names@,
                Heap::Produce,
                n,
                terms,
                sess.depth as nat,
            ) {
                Ok((st, ret)) => Ok((st, (terms, ret))),
                Err(e) => Err(e),
            },
        }
    }

    /// Nothing may be left over: no cell and no family.
    pub open spec fn check_empty(self) -> Result<(), ErrorKind> {
        if self.alloc.len() == 0 && self.forall.len() == 0 {
            Ok(())
        } else {
            Err(ErrorKind::Leak)
        }
    }

    /// Whether `res` gives at least what `p` asks for: with fresh variables
    /// for the parameters, what `res` says is produced, and what `p` says
    /// is consumed from that. What is left over is of no concern.
    pub open spec fn sub_pos_typ<O: Oracle>(self, sess: &Session<O>, res: Fun<PosTyp>, p: Fun<PosTyp>) -> Result<
        (),
        ConsumeErr,
    > {
        self.sub_pos(&sess.oracle, sess.names@, res, p, sess.depth as nat)
    }

    /// Checks the body `l` of a function against its signature `n`.
    pub open spec fn check_expr<O: Oracle>(self, sess: &Session<O>, l: Lambda, n: Fun<NegTyp>) -> Result<
        (),
        ConsumeErr,
    >
        decreases l.weight(), 1int,
    {
        match self.extract(sess, n) {
            Err(e) => Err(e),
            Ok((st, (terms, ret))) => match l.expr(terms, n) {
                Err(e) => Err(e),
                Ok(e) => {
                    proof {
                        l.lemma_expr_weight(terms, n);
                    }
                    locate(st.check_expr_pos(sess, e, ret), Some(l.span))
                },
            },
        }
    }

    /// Checks the branches of a match on `term` from branch `i` on. Every
    /// branch starts from this same state, with its guard for a fact.
    pub open spec fn check_arms<O: Oracle>(
        self,
        sess: &Session<O>,
        term: Term,
        pats: List<Lambda>,
        i: nat,
        p: Fun<PosTyp>,
    ) -> Result<(), ConsumeErr>
        decreases lambdas_weight(pats), 2int,
    {
        match pats {
            List::Nil => Ok(()),
            List::Cons(l, rest) => if i > i64::MAX || i >= usize::MAX {
                fail(ErrorKind::Limit, Some(l.span))
            } else {
                match self.check_expr(sess, l, arrow(holds(guard(term, i, *rest is Nil)), p)) {
                    Err(e) => Err(e),
                    Ok(_) => self.check_arms(sess, term, *rest, i + 1, p),
                }
            },
        }
    }

    /// Checks a return: the result type is met from what the state holds,
    /// by consumption at the terms of the values, and nothing may be left
    /// over.
    pub open spec fn check_return<O: Oracle>(self, sess: &Session<O>, v: Value, p: Fun<PosTyp>) -> Result<
        (),
        ConsumeErr,
    > {
        match self.calc_args(&sess.oracle, *v.inj) {
            Err(kind) => fail(kind, v.span),
            Ok(args) => match locate(
                self.apply_pos(&sess.oracle, sess.names@, Heap::Consume, p, args, sess.depth as nat),
                v.span,
            ) {
                Err(e) => Err(e),
                Ok((st, _)) => match st.check_empty() {
                    Ok(_) => Ok(()),
                    Err(kind) => fail(kind, v.span),
                },
            },
        }
    }

    /// Checks a jump: what the label asks of the arguments is consumed, a
    /// failure of which has the place of the jump, and what the label
    /// returns must be a subtype of `p`.
    pub open spec fn check_jump<O: Oracle>(
        self,
        sess: &Session<O>,
        n: Fun<NegTyp>,
        s: Value,
        p: Fun<PosTyp>,
    ) -> Result<(), ConsumeErr> {
        match self.calc_args(&sess.oracle, *s.inj) {
            Err(kind) => fail(kind, s.span),
            Ok(args) => match blame(
                self.apply_neg(&sess.oracle, sess.names@, Heap::Consume, n, args, sess.depth as nat),
                s.span,
            ) {
                Err(e) => Err(e),
                Ok((st, res)) => locate(st.sub_pos_typ(sess, res, p), s.span),
            },
        }
    }

    /// Checks a call and the rest of the block: what the callee asks of the
    /// arguments is consumed, a failure of which has the place of the call,
    /// and the rest is checked with what the callee returns.
    pub open spec fn check_call<O: Oracle>(
        self,
        sess: &Session<O>,
        func: Thunk,
        s: Value,
        l: Lambda,
        p: Fun<PosTyp>,
    ) -> Result<(), ConsumeErr>
        decreases l.weight(), 2int,
    {
        match (infer_func(sess, func), self.calc_args(&sess.oracle, *s.inj)) {
            (Err(kind), _) => fail(kind, s.span),
            (_, Err(kind)) => fail(kind, s.span),
            (Ok(n), Ok(args)) => match blame(
                self.apply_neg(&sess.oracle, sess.names@, Heap::Consume, n, args, sess.depth as nat),
                s.span,
            ) {
                Err(e) => Err(e),
                Ok((st, bound)) => st.check_expr(sess, l, arrow(bound, p)),
            },
        }
    }

    /// Checks a function defined inside and the rest of the block: the
    /// function is checked against its own signature from this state, and
    /// the rest of the block is checked from this same state.
    pub open spec fn check_inner<O: Oracle>(
        self,
        sess: &Session<O>,
        c: Lambda,
        n: Fun<NegTyp>,
        l: Lambda,
        p: Fun<PosTyp>,
    ) -> Result<(), ConsumeErr>
        decreases c.weight() + l.weight(), 2int,
    {
        match self.check_expr(sess, c, n) {
            Err(e) => Err(e),
            Ok(_) => match l.expr(Seq::empty(), n) {
                Err(e) => Err(e),
                Ok(rest) => {
                    proof {
                        l.lemma_expr_weight(Seq::empty(), n);
                    }
                    locate(self.check_expr_pos(sess, rest, p), Some(l.span))
                },
            },
        }
    }

    /// Checks a match: the value that is matched on must have a term, there
    /// must be a branch, and every branch is checked from this same state.
    pub open spec fn check_match<O: Oracle>(
        self,
        sess: &Session<O>,
        free: Free<Term>,
        pats: List<Lambda>,
        p: Fun<PosTyp>,
    ) -> Result<(), ConsumeErr>
        decreases lambdas_weight(pats), 3int,
    {
        match self.check_free(&sess.oracle, free) {
            Err(kind) => fail(kind, None),
            Ok(term) => if pats is Nil {
                fail(ErrorKind::Arity, None)
            } else {
                self.check_arms(sess, term, pats, 0, p)
            },
        }
    }

    /// Checks an expression against the result type `p`, each kind of
    /// expression in its own way.
    pub open spec fn check_expr_pos<O: Oracle>(self, sess: &Session<O>, e: Expr, p: Fun<PosTyp>) -> Result<
        (),
        ConsumeErr,
    >
        decreases e.weight(), 0int,
    {
        match e {
            Expr::Return(v) => self.check_return(sess, v, p),
            Expr::Let(BoundExpr::App(func, s), l) => self.check_call(sess, func, s, *l, p),
            Expr::Let(BoundExpr::Cont(c, n), l) => self.check_inner(sess, *c, n, *l, p),
            Expr::Match(free, pats) => self.check_match(sess, free, *pats, p),
            Expr::Loop(n, s) => self.check_jump(sess, n, s, p),
        }
    }
}

/// The terms of a list of expressions that all have one.
pub open spec fn args_of<O: Oracle>(st: State, o: &O, inj: &List<Free<Term>>) -> Seq<Term> {
    st.calc_args(o, *inj)->Ok_0
}

impl SubContext {
    /// The signature of what a call applies.
    pub fn infer_func<O: Oracle>(&self, sess: &Session<O>, func: &Thunk) -> (r: Result<Fun<NegTyp>, ErrorKind>)
        ensures
            r == infer_func(sess, *func),
    {
        match func {
            Thunk::Local(local) => Ok(local.clone()),
            Thunk::Builtin(builtin) => builtin.infer(sess),
        }
    }

    /// The term of an expression; each operation in it is checked.
    pub fn check_free<O: Oracle>(&self, sess: &Session<O>, free: &Free<Term>) -> (r: Result<Term, ErrorKind>)
        ensures
            r == self@.check_free(&sess.oracle, *free),
        decreases free,
    {
        match free {
            Free::Just(idx, size) => Ok(Term::lit(*idx, *size)),
            Free::Var(local) => Ok(local.clone()),
            Free::BinOp { l, r, op } => {
                let l = self.check_free(sess, l)?;
                let r = self.check_free(sess, r)?;
                self.check_binop(sess, op, &l, &r)?;
                Ok(op.apply(&l, &r))
            },
        }
    }

    fn calc_into<O: Oracle>(&self, sess: &Session<O>, inj: &List<Free<Term>>, out: &mut Vec<Term>) -> (r: Result<
        (),
        ErrorKind,
    >)
        ensures
            match r {
                Ok(_) => self@.calc_args(&sess.oracle, *inj) matches Ok(s) && final(out)@ == old(out)@ + s,
                Err(e) => self@.calc_args(&sess.oracle, *inj) == Err::<Seq<Term>, ErrorKind>(e),
            },
        decreases inj,
    {
        match inj {
            List::Nil => {
                assert(out@ + Seq::<Term>::empty() =~= out@);
                Ok(())
            },
            List::Cons(f, rest) => {
                let t = self.check_free(sess, f)?;
                out.push(t);
                self.calc_into(sess, rest, out)?;
                proof {
                    let s = args_of(self@, &sess.oracle, &**rest);
                    assert(final(out)@ =~= old(out)@ + (seq![t] + s));
                }
                Ok(())
            },
        }
    }

    /// The terms of the expressions of a value, in order.
    pub fn calc_args<O: Oracle>(&self, sess: &Session<O>, val: &Value) -> (r: Result<Vec<Term>, ErrorKind>)
        ensures
            match r {
                Ok(v) => self@.calc_args(&sess.oracle, *val.inj) == Ok::<Seq<Term>, ErrorKind>(v@),
                Err(e) => self@.calc_args(&sess.oracle, *val.inj) == Err::<Seq<Term>, ErrorKind>(e),
            },
    {
        let mut out: Vec<Term> = Vec::new();
        self.calc_into(sess, &val.inj, &mut out)?;
        proof {
            let s = args_of(self@, &sess.oracle, &*val.inj);
            assert(out@ =~= s);
        }
        Ok(out)
    }

    /// Takes what a function type says of its arguments for granted.
    pub fn extract<O: Oracle>(&mut self, sess: &Session<O>, n: &Fun<NegTyp>) -> (r: Result<
        Solved<Fun<PosTyp>>,
        ConsumeErr,
    >)
        ensures
            match r {
                Ok(s) => old(self)@.extract(sess, *n) == Ok::<(State, (Seq<Term>, Fun<PosTyp>)), ConsumeErr>(
                    (final(self)@, (s.terms@, s.inner)),
                ),
                Err(e) => old(self)@.extract(sess, *n) == Err::<(State, (Seq<Term>, Fun<PosTyp>)), ConsumeErr>(e),
            },
    {
        let terms = match self.fresh(n.count()) {
            Some(terms) => terms,
            None => {
                return Err(ConsumeErr { kind: ErrorKind::Limit, span: n.span });
            },
        };
        let inner = self.apply_neg(sess, Heap::Produce, n, &terms, sess.depth)?;
        Ok(Solved { terms, inner })
    }

    /// Consumes what a result type asks of the values handed over.
    pub fn check_value<O: Oracle>(&mut self, sess: &Session<O>, v: &Value, p: &Fun<PosTyp>) -> (r: Result<
        (),
        ConsumeErr,
    >)
        ensures
            match old(self)@.calc_args(&sess.oracle, *v.inj) {
                Err(kind) => r == Err::<(), ConsumeErr>(ConsumeErr { kind, span: v.span }),
                Ok(args) => runs(
                    r,
                    final(self)@,
                    locate(
                        old(self)@.apply_pos(&sess.oracle, sess.names@, Heap::Consume, *p, args, sess.depth as nat),
                        v.span,
                    ),
                ),
            },
    {
        let args = match self.calc_args(sess, v) {
            Ok(args) => args,
            Err(kind) => {
                return Err(ConsumeErr { kind, span: v.span });
            },
        };
        at(self.apply_pos(sess, Heap::Consume, p, &args, sess.depth), v.span)
    }

    /// Consumes what a function type asks of the arguments of a call and
    /// returns the type of the results.
    pub fn spine<O: Oracle>(&mut self, sess: &Session<O>, n: &Fun<NegTyp>, s: &Value) -> (r: Result<
        Fun<PosTyp>,
        ConsumeErr,
    >)
        ensures
            match old(self)@.calc_args(&sess.oracle, *s.inj) {
                Err(kind) => r == Err::<Fun<PosTyp>, ConsumeErr>(ConsumeErr { kind, span: s.span }),
                Ok(args) => runs(
                    r,
                    final(self)@,
                    blame(
                        old(self)@.apply_neg(&sess.oracle, sess.names@, Heap::Consume, *n, args, sess.depth as nat),
                        s.span,
                    ),
                ),
            },
    {
        let args = match self.calc_args(sess, s) {
            Ok(args) => args,
            Err(kind) => {
                return Err(ConsumeErr { kind, span: s.span });
            },
        };
        blamed(self.apply_neg(sess, Heap::Consume, n, &args, sess.depth), s.span)
    }

    /// Checks that the context holds no cell and no family.
    pub fn check_empty(self) -> (r: Result<(), ErrorKind>)
        ensures
            r == self@.check_empty(),
    {
        if self.alloc.len() == 0 && self.forall.len() == 0 {
            Ok(())
        } else {
            Err(ErrorKind::Leak)
        }
    }

    /// Checks that `res` gives at least what `p` asks for.
    pub fn sub_pos_typ<O: Oracle>(self, sess: &Session<O>, res: &Fun<PosTyp>, p: &Fun<PosTyp>) -> (r: Result<
        (),
        ConsumeErr,
    >)
        ensures
            r == self@.sub_pos_typ(sess, *res, *p),
    {
        self.sub_pos(sess, res, p, sess.depth)
    }

    /// Checks the body of a function against its signature.
    pub fn check_expr<O: Oracle>(self, sess: &Session<O>, l: &Lambda, n: &Fun<NegTyp>) -> (r: Result<(), ConsumeErr>)
        ensures
            r == self@.check_expr(sess, *l, *n),
        decreases l.weight(), 1int,
    {
        let mut this = self;
        let neg = this.extract(sess, n)?;
        let e = l.inst(&neg.terms, n)?;
        at(this.check_expr_pos(sess, &e.val, &neg.inner), Some(e.span))
    }

    fn check_arms<O: Oracle>(
        &self,
        sess: &Session<O>,
        term: &Term,
        pats: &List<Lambda>,
        i: usize,
        p: &Fun<PosTyp>,
    ) -> (r: Result<(), ConsumeErr>)
        ensures
            r == self@.check_arms(sess, *term, *pats, i as nat, *p),
        decreases lambdas_weight(*pats), 2int,
    {
        match pats {
            List::Nil => Ok(()),
            List::Cons(l, rest) => {
                if i as u64 > 0x7fff_ffff_ffff_ffffu64 || i == usize::MAX {
                    return Err(ConsumeErr { kind: ErrorKind::Limit, span: Some(l.span) });
                }
                let last = match &**rest {
                    List::Nil => true,
                    _ => false,
                };
                let at = Term::lit(i as i64, term.get_size());
                let phi = if last {
                    at.ule(term)
                } else {
                    term.eq(&at)
                };
                // resources are kept for the branches that follow
                let this = self.clone();
                let match_p = SubContext::unroll_prod_univ(phi);
                this.check_expr(sess, l, &match_p.arrow(p.clone()))?;
                self.check_arms(sess, term, rest, i + 1, p)
            },
        }
    }

    /// The result type that asks for one proposition.
    pub fn unroll_prod_univ(phi: Term) -> (f: Fun<PosTyp>)
        ensures
            f == holds(phi),
    {
        Fun { tau: Rc::new(List::Nil), span: None, fun: PosTyp::Holds(phi) }
    }

    /// Checks a return against a result type.
    pub fn check_return<O: Oracle>(self, sess: &Session<O>, v: &Value, p: &Fun<PosTyp>) -> (r: Result<
        (),
        ConsumeErr,
    >)
        ensures
            r == self@.check_return(sess, *v, *p),
    {
        let mut this = self;
        this.check_value(sess, v, p)?;
        match this.check_empty() {
            Ok(_) => Ok(()),
            Err(kind) => Err(ConsumeErr { kind, span: v.span }),
        }
    }

    /// Checks a jump against a result type.
    pub fn check_jump<O: Oracle>(self, sess: &Session<O>, n: &Fun<NegTyp>, s: &Value, p: &Fun<PosTyp>) -> (r: Result<
        (),
        ConsumeErr,
    >)
        ensures
            r == self@.check_jump(sess, *n, *s, *p),
    {
        let mut this = self;
        let res = this.spine(sess, n, s)?;
        at(this.sub_pos_typ(sess, &res, p), s.span)
    }

    /// Checks a call and the rest of the block against a result type.
    pub fn check_call<O: Oracle>(
        self,
        sess: &Session<O>,
        func: &Thunk,
        s: &Value,
        l: &Lambda,
        p: &Fun<PosTyp>,
    ) -> (r: Result<(), ConsumeErr>)
        ensures
            r == self@.check_call(sess, *func, *s, *l, *p),
        decreases l.weight(), 2int,
    {
        let mut this = self;
        let n = match this.infer_func(sess, func) {
            Ok(n) => n,
            Err(kind) => {
                return Err(ConsumeErr { kind, span: s.span });
            },
        };
        let bound_p = this.spine(sess, &n, s)?;
        this.check_expr(sess, l, &bound_p.arrow(p.clone()))
    }

    /// Checks a function defined inside and the rest of the block against a
    /// result type.
    pub fn check_inner<O: Oracle>(
        self,
        sess: &Session<O>,
        c: &Lambda,
        n: &Fun<NegTyp>,
        l: &Lambda,
        p: &Fun<PosTyp>,
    ) -> (r: Result<(), ConsumeErr>)
        ensures
            r == self@.check_inner(sess, *c, *n, *l, *p),
        decreases c.weight() + l.weight(), 2int,
    {
        // the function does not take what the rest of the block needs
        self.clone().check_expr(sess, c, n)?;
        let e = l.inst(&Vec::new(), n)?;
        at(self.check_expr_pos(sess, &e.val, p), Some(e.span))
    }

    /// Checks a match against a result type.
    pub fn check_match<O: Oracle>(
        self,
        sess: &Session<O>,
        free: &Free<Term>,
        pats: &List<Lambda>,
        p: &Fun<PosTyp>,
    ) -> (r: Result<(), ConsumeErr>)
        ensures
            r == self@.check_match(sess, *free, *pats, *p),
        decreases lambdas_weight(*pats), 3int,
    {
        let term = match self.check_free(sess, free) {
            Ok(term) => term,
            Err(kind) => {
                return Err(ConsumeErr { kind, span: None });
            },
        };
        match pats {
            List::Nil => Err(ConsumeErr { kind: ErrorKind::Arity, span: None }),
            _ => self.check_arms(sess, &term, pats, 0, p),
        }
    }

    /// Checks an expression against a result type.
    pub fn check_expr_pos<O: Oracle>(self, sess: &Session<O>, e: &Expr, p: &Fun<PosTyp>) -> (r: Result<
        (),
        ConsumeErr,
    >)
        ensures
            r == self@.check_expr_pos(sess, *e, *p),
        decreases e.weight(), 0int,
    {
        match e {
            Expr::Return(v) => self.check_return(sess, v, p),
            Expr::Let(g, l) => match g {
                BoundExpr::App(func, s) => self.check_call(sess, func, s, l, p),
                BoundExpr::Cont(c, n) => self.check_inner(sess, c, n, l, p),
            },
            Expr::Match(free, pats) => self.check_match(sess, free, pats, p),
            Expr::Loop(n, s) => self.check_jump(sess, n, s, p),
        }
    }
}

impl Builtin {
    /// The signature of the primitive.
    pub fn infer<O: Oracle>(&self, sess: &Session<O>) -> (r: Result<Fun<NegTyp>, ErrorKind>)
        ensures
            r == infer_func(sess, Thunk::Builtin(*self)),
    {
        match self {
            Builtin::Read => Ok(sess.builtins.read.clone()),
            Builtin::Write => Ok(sess.builtins.write.clone()),
            Builtin::Alloc => Ok(sess.builtins.alloc.clone()),
            Builtin::Pack(id, unpack) => {
                if *id < sess.names.len() {
                    let typ = &sess.names[*id].typ;
                    Ok(Fun { tau: typ.tau.clone(), span: typ.span, fun: NegTyp::Pack { named: *id, unpack: *unpack } })
                } else {
                    Err(ErrorKind::Unbound)
                }
            },
        }
    }
}

} // verus!
