//! Lowers the surface syntax tree into the typed language.

use super::expr::{BinOp, BinOpValue, Block, Def, FuncDef, Module, Stmt, Value};
use super::types::{Prop, PropOp};
use crate::refinement::builtin::Builtin;
use crate::refinement::heap::{State, SubContext};
use crate::refinement::oracle::Oracle;
use crate::refinement::list::{List, Scope};
use crate::refinement::term::{Free, Term};
use crate::refinement::{
    self, BoundExpr, ConsumeErr, ErrorKind, Expr, Fun, Lambda, Name, NegTyp, PosTyp, Session, Span, Spanned, Thunk,
    WeakNameList,
};
use std::rc::Rc;
use vstd::prelude::*;

verus! {

/// The names in scope while lowering: the named resources, the terms that
/// the names of a type stand for, the terms that the variables of a body
/// stand for, and the signatures of the labels that can be called or jumped
/// to.
pub struct Desugar {
    pub named: WeakNameList,
    pub terms: Rc<Scope<Term>>,
    pub vars: Rc<Scope<Term>>,
    pub labels: Rc<Scope<Fun<NegTyp>>>,
}

impl Clone for Desugar {
    fn clone(&self) -> (r: Self)
        ensures
            r == *self,
    {
        Desugar {
            named: self.named.clone(),
            terms: self.terms.clone(),
            vars: self.vars.clone(),
            labels: self.labels.clone(),
        }
    }
}

impl BinOp {
    /// The operator of the typed language that an arithmetic operator
    /// stands for.
    pub open spec fn lower(self) -> refinement::term::BinOp {
        match self {
            BinOp::Plus => refinement::term::BinOp::Add,
            BinOp::Minus => refinement::term::BinOp::Sub,
        }
    }
}

/// The expression that applies an operator to two expressions.
pub open spec fn node(op: refinement::term::BinOp, l: Free<Term>, r: Free<Term>) -> Free<Term> {
    Free::BinOp { l: Rc::new(l), r: Rc::new(r), op }
}

/// The negation of a truth value: one minus the expression.
pub open spec fn negation(f: Free<Term>) -> Free<Term> {
    node(refinement::term::BinOp::Sub, Free::Just(1, 32), f)
}

impl PropOp {
    /// The expression that relates two expressions. Only `<`, `==`, `&&` and
    /// the check of a product have an operator of their own: `l <= r` is
    /// written as the negation of `r < l`, and `l != r` as the negation of
    /// `l == r`.
    pub open spec fn relate(self, l: Free<Term>, r: Free<Term>) -> Free<Term> {
        match self {
            PropOp::Less => node(refinement::term::BinOp::Less, l, r),
            PropOp::LessEq => negation(node(refinement::term::BinOp::Less, r, l)),
            PropOp::Eq => node(refinement::term::BinOp::Eq, l, r),
            PropOp::NotEq => negation(node(refinement::term::BinOp::Eq, l, r)),
            PropOp::And => node(refinement::term::BinOp::And, l, r),
            PropOp::MulSafe => node(refinement::term::BinOp::MulSafe, l, r),
        }
    }
}

/// The expression that joins the lowered operands, or the failure of the
/// left operand, or else of the right one.
pub open spec fn join(
    op: refinement::term::BinOp,
    l: Result<Free<Term>, ErrorKind>,
    r: Result<Free<Term>, ErrorKind>,
) -> Result<Free<Term>, ErrorKind> {
    match (l, r) {
        (Ok(l), Ok(r)) => Ok(Free::BinOp { l: Rc::new(l), r: Rc::new(r), op }),
        (Err(e), _) => Err(e),
        (_, Err(e)) => Err(e),
    }
}

impl Value {
    /// The expression that the value denotes where `lookup` says what its
    /// variables stand for: a number is a literal of width 32, and a
    /// variable without a binding is a failure.
    pub open spec fn lower(self, lookup: Scope<Term>) -> Result<Free<Term>, ErrorKind>
        decreases self,
    {
        match self {
            Value::Var(name) => match lookup.get(name@) {
                Some(t) => Ok(Free::Var(t)),
                None => Err(ErrorKind::Unbound),
            },
            Value::Int32(val) => Ok(Free::Just(val as i64, 32)),
            Value::BinOp(binop) => binop.lower(lookup),
            Value::Prop(prop) => prop.lower(lookup),
        }
    }

    pub fn convert(&self, lookup: &Scope<Term>) -> (r: Result<Free<Term>, ErrorKind>)
        ensures
            r == self.lower(*lookup),
        decreases self,
    {
        match self {
            Value::Var(name) => match lookup.lookup(name) {
                Some(t) => Ok(Free::Var(t.clone())),
                None => Err(ErrorKind::Unbound),
            },
            Value::Int32(val) => Ok(Free::Just(*val as i64, 32)),
            Value::BinOp(binop) => binop.convert(lookup),
            Value::Prop(prop) => prop.convert(lookup),
        }
    }
}

impl BinOpValue {
    pub open spec fn lower(self, lookup: Scope<Term>) -> Result<Free<Term>, ErrorKind>
        decreases self,
    {
        join(self.op.lower(), self.l.lower(lookup), self.r.lower(lookup))
    }

    pub fn convert(&self, lookup: &Scope<Term>) -> (r: Result<Free<Term>, ErrorKind>)
        ensures
            r == self.lower(*lookup),
        decreases self,
    {
        let op = match self.op {
            BinOp::Plus => refinement::term::BinOp::Add,
            BinOp::Minus => refinement::term::BinOp::Sub,
        };
        let l = self.l.convert(lookup)?;
        let r = self.r.convert(lookup)?;
        Ok(op.free(l, r))
    }
}

impl Prop {
    /// The expression that the proposition denotes: its two sides related
    /// as `PropOp::relate` says, or the failure of the left side, or else of
    /// the right one.
    pub open spec fn lower(self, lookup: Scope<Term>) -> Result<Free<Term>, ErrorKind>
        decreases self,
    {
        match (self.l.lower(lookup), self.r.lower(lookup)) {
            (Ok(l), Ok(r)) => Ok(self.op.relate(l, r)),
            (Err(e), _) => Err(e),
            (_, Err(e)) => Err(e),
        }
    }

    pub fn convert(&self, lookup: &Scope<Term>) -> (r: Result<Free<Term>, ErrorKind>)
        ensures
            r == self.lower(*lookup),
        decreases self,
    {
        let l = self.l.convert(lookup)?;
        let r = self.r.convert(lookup)?;
        Ok(
            match self.op {
                PropOp::Less => refinement::term::BinOp::Less.free(l, r),
                PropOp::LessEq => refinement::term::BinOp::Less.free(r, l).bool_not(),
                PropOp::Eq => refinement::term::BinOp::Eq.free(l, r),
                PropOp::NotEq => refinement::term::BinOp::Eq.free(l, r).bool_not(),
                PropOp::And => refinement::term::BinOp::And.free(l, r),
                PropOp::MulSafe => refinement::term::BinOp::MulSafe.free(l, r),
            },
        )
    }
}

/// The term of a lowered expression, or its failure.
pub open spec fn term_of(f: Result<Free<Term>, ErrorKind>) -> Result<Term, ErrorKind> {
    match f {
        Ok(f) => Ok(f.term()),
        Err(e) => Err(e),
    }
}

/// The terms of the first `n` values, or the failure of the first value
/// among them that has no term.
pub open spec fn terms_of(vals: Seq<Value>, lookup: Scope<Term>, n: int) -> Result<Seq<Term>, ErrorKind>
    decreases n,
{
    if n <= 0 {
        Ok(Seq::empty())
    } else {
        match terms_of(vals, lookup, n - 1) {
            Err(e) => Err(e),
            Ok(s) => match vals[n - 1].lower(lookup) {
                Ok(f) => Ok(s.push(f.term())),
                Err(e) => Err(e),
            },
        }
    }
}

impl Desugar {
    pub fn new(named: WeakNameList) -> (d: Self)
        ensures
            d == (Desugar {
                named,
                terms: Rc::new(Scope::Empty),
                vars: Rc::new(Scope::Empty),
                labels: Rc::new(Scope::Empty),
            }),
    {
        Desugar { named, terms: Rc::new(Scope::Empty), vars: Rc::new(Scope::Empty), labels: Rc::new(Scope::Empty) }
    }

    /// The term of a proposition of a type.
    pub fn convert_prop(&self, prop: &Prop) -> (r: Result<Term, ErrorKind>)
        ensures
            r == term_of(prop.lower(*self.terms)),
    {
        prop_term(prop, &self.terms)
    }

    /// The term of an arithmetic value of a type.
    pub fn convert_binop(&self, binop: &BinOpValue) -> (r: Result<Term, ErrorKind>)
        ensures
            r == term_of(binop.lower(*self.terms)),
    {
        Ok(binop.convert(&self.terms)?.make_term())
    }

    /// The term of a value of a type.
    pub fn convert_val(&self, val: &Value) -> (r: Result<Term, ErrorKind>)
        ensures
            r == term_of(val.lower(*self.terms)),
    {
        value_term(val, &self.terms)
    }

    /// The terms of the values of a type, in order.
    pub fn convert_vals(&self, vals: &Vec<Value>) -> (r: Result<Vec<Term>, ErrorKind>)
        ensures
            match r {
                Ok(v) => terms_of(vals@, *self.terms, vals@.len() as int) == Ok::<Seq<Term>, ErrorKind>(v@),
                Err(e) => terms_of(vals@, *self.terms, vals@.len() as int) == Err::<Seq<Term>, ErrorKind>(e),
            },
    {
        value_terms(vals, &self.terms)
    }
}

/// The term of a proposition where `lookup` says what its variables stand
/// for.
pub fn prop_term(prop: &Prop, lookup: &Scope<Term>) -> (r: Result<Term, ErrorKind>)
    ensures
        r == term_of(prop.lower(*lookup)),
{
    Ok(prop.convert(lookup)?.make_term())
}

/// The term of a value where `lookup` says what its variables stand for.
pub fn value_term(val: &Value, lookup: &Scope<Term>) -> (r: Result<Term, ErrorKind>)
    ensures
        r == term_of(val.lower(*lookup)),
{
    Ok(val.convert(lookup)?.make_term())
}

/// The terms of values, in order, where `lookup` says what their variables
/// stand for.
pub fn value_terms(vals: &Vec<Value>, lookup: &Scope<Term>) -> (r: Result<Vec<Term>, ErrorKind>)
    ensures
        match r {
            Ok(v) => terms_of(vals@, *lookup, vals@.len() as int) == Ok::<Seq<Term>, ErrorKind>(v@),
            Err(e) => terms_of(vals@, *lookup, vals@.len() as int) == Err::<Seq<Term>, ErrorKind>(e),
        },
{
    let mut out: Vec<Term> = Vec::new();
    let mut i: usize = 0;
    while i < vals.len()
        invariant
            i <= vals.len(),
            terms_of(vals@, *lookup, i as int) == Ok::<Seq<Term>, ErrorKind>(out@),
        decreases vals.len() - i,
    {
        match value_term(&vals[i], lookup) {
            Ok(t) => {
                out.push(t);
            },
            Err(e) => {
                proof {
                    lemma_terms_of_fails(vals@, lookup, i as int + 1, vals@.len() as int);
                }
                return Err(e);
            },
        }
        i += 1;
    }
    Ok(out)
}

/// A failure among the first `n` values is the failure of any longer prefix.
pub proof fn lemma_terms_of_fails(vals: Seq<Value>, lookup: &Scope<Term>, n: int, m: int)
    requires
        n <= m,
        terms_of(vals, *lookup, n) is Err,
    ensures
        terms_of(vals, *lookup, m) == terms_of(vals, *lookup, n),
    decreases m - n,
{
    if n < m {
        lemma_terms_of_fails(vals, lookup, n, m - 1);
    }
}

/// The expressions of the first `n` values, or the failure of the first
/// value among them that has none.
pub open spec fn frees_of(vals: Seq<Value>, lookup: Scope<Term>, n: int) -> Result<Seq<Free<Term>>, ErrorKind>
    decreases n,
{
    if n <= 0 {
        Ok(Seq::empty())
    } else {
        match frees_of(vals, lookup, n - 1) {
            Err(e) => Err(e),
            Ok(s) => match vals[n - 1].lower(lookup) {
                Ok(f) => Ok(s.push(f)),
                Err(e) => Err(e),
            },
        }
    }
}

/// A failure among the first `n` values is the failure of any longer prefix.
pub proof fn lemma_frees_of_fails(vals: Seq<Value>, lookup: &Scope<Term>, n: int, m: int)
    requires
        n <= m,
        frees_of(vals, *lookup, n) is Err,
    ensures
        frees_of(vals, *lookup, m) == frees_of(vals, *lookup, n),
    decreases m - n,
{
    if n < m {
        lemma_frees_of_fails(vals, lookup, n, m - 1);
    }
}

/// The expressions of values, in order, where `lookup` says what their
/// variables stand for.
pub fn value_frees(vals: &Vec<Value>, lookup: &Scope<Term>) -> (r: Result<Vec<Free<Term>>, ErrorKind>)
    ensures
        match r {
            Ok(v) => frees_of(vals@, *lookup, vals@.len() as int) == Ok::<Seq<Free<Term>>, ErrorKind>(v@),
            Err(e) => frees_of(vals@, *lookup, vals@.len() as int) == Err::<Seq<Free<Term>>, ErrorKind>(e),
        },
{
    let mut out: Vec<Free<Term>> = Vec::new();
    let mut i: usize = 0;
    while i < vals.len()
        invariant
            i <= vals.len(),
            frees_of(vals@, *lookup, i as int) == Ok::<Seq<Free<Term>>, ErrorKind>(out@),
        decreases vals.len() - i,
    {
        match vals[i].convert(lookup) {
            Ok(f) => {
                out.push(f);
            },
            Err(e) => {
                proof {
                    lemma_frees_of_fails(vals@, lookup, i as int + 1, vals@.len() as int);
                }
                return Err(e);
            },
        }
        i += 1;
    }
    Ok(out)
}

fn list_of_frees(v: Vec<Free<Term>>) -> (l: Rc<List<Free<Term>>>)
    ensures
        *l == List::of(v@, 0),
{
    let mut v = v;
    let ghost all = v@;
    let mut l: List<Free<Term>> = List::Nil;
    while v.len() > 0
        invariant
            v@ == all.subrange(0, v@.len() as int),
            v@.len() <= all.len(),
            l == List::of(all, v@.len() as int),
        decreases v.len(),
    {
        let last = v.pop().unwrap();
        l = List::Cons(last, Rc::new(l));
        assert(v@ =~= all.subrange(0, v@.len() as int));
    }
    Rc::new(l)
}

fn is_lit(name: &String, lit: &str) -> (b: bool)
    ensures
        b == (name@ == lit@),
{
    let other = lit.to_owned();
    *name == other
}

/// Whether a name is set aside for what is built in: it starts with `@`.
pub open spec fn reserved(name: Seq<char>) -> bool {
    name.len() > 0 && name[0] == '@'
}

/// Whether a name is set aside for what is built in.
pub fn is_reserved(name: &String) -> (b: bool)
    ensures
        b == reserved(name@),
{
    let s = name.as_str();
    s.unicode_len() > 0 && s.get_char(0) == '@'
}

/// What a callee of this name is: the primitive that reads a byte or the one
/// that writes a byte, or the function in scope that is known by this label.
/// Any other name that is set aside is no callee, whatever the labels in
/// scope are.
pub open spec fn thunk_of(labels: Scope<Fun<NegTyp>>, name: Seq<char>) -> Option<Thunk> {
    if name == "@read_u8"@ {
        Some(Thunk::Builtin(Builtin::Read))
    } else if name == "@write_u8"@ {
        Some(Thunk::Builtin(Builtin::Write))
    } else if reserved(name) {
        None
    } else {
        match labels.get(name) {
            Some(f) => Some(Thunk::Local(f)),
            None => None,
        }
    }
}

fn find_thunk(labels: &Scope<Fun<NegTyp>>, name: &String) -> (r: Option<Thunk>)
    ensures
        r == thunk_of(*labels, name@),
{
    if is_lit(name, "@read_u8") {
        Some(Thunk::Builtin(Builtin::Read))
    } else if is_lit(name, "@write_u8") {
        Some(Thunk::Builtin(Builtin::Write))
    } else if is_reserved(name) {
        None
    } else {
        match labels.lookup(name) {
            Some(f) => Some(Thunk::Local(f.clone())),
            None => None,
        }
    }
}

impl Desugar {
    /// The result type that a type of the surface syntax stands for where
    /// it is written.
    pub open spec fn pos(self, typ: Rc<Spanned<super::types::PosTyp>>) -> Fun<PosTyp> {
        Fun {
            tau: Rc::new(refinement::words(typ.val.names@)),
            span: Some(typ.span),
            fun: PosTyp::Declared { named: self.named, terms: self.terms, typ },
        }
    }

    /// The function type that a signature of the surface syntax stands for
    /// where it is written.
    pub open spec fn neg(self, typ: super::types::NegTyp) -> Fun<NegTyp> {
        Fun {
            tau: Rc::new(refinement::words(typ.args.val.names@)),
            span: Some(typ.args.span),
            fun: NegTyp::Declared { named: self.named, terms: self.terms, args: typ.args, ret: typ.ret },
        }
    }

    /// The values of a return, a call or a jump as expressions over the
    /// variables in scope.
    pub open spec fn value(self, vals: Seq<Value>, span: Span) -> Result<refinement::Value, ErrorKind> {
        match frees_of(vals, *self.vars, vals.len() as int) {
            Ok(inj) => Ok(refinement::Value { inj: Rc::new(List::of(inj, 0)), span: Some(span) }),
            Err(e) => Err(e),
        }
    }

    /// The rest of a block from statement `index` on.
    pub open spec fn lambda(
        self,
        index: usize,
        block: Rc<Block>,
        label: Option<(String, Option<Fun<NegTyp>>)>,
        names: Seq<String>,
        span: Span,
    ) -> Lambda {
        Lambda { desugar: self, block, index, label, names: Rc::new(List::of(names, 0)), span }
    }

    pub fn convert_pos(&self, pos: Rc<Spanned<super::types::PosTyp>>) -> (f: Fun<PosTyp>)
        ensures
            f == self.pos(pos),
    {
        Fun {
            tau: refinement::words_of(&pos.val.names),
            span: Some(pos.span),
            fun: PosTyp::Declared { named: self.named.clone(), terms: self.terms.clone(), typ: pos },
        }
    }

    pub fn convert_neg(&self, neg: &super::types::NegTyp) -> (f: Fun<NegTyp>)
        ensures
            f == self.neg(*neg),
    {
        Fun {
            tau: refinement::words_of(&neg.args.val.names),
            span: Some(neg.args.span),
            fun: NegTyp::Declared {
                named: self.named.clone(),
                terms: self.terms.clone(),
                args: neg.args.clone(),
                ret: neg.ret.clone(),
            },
        }
    }

    pub fn convert_value(&self, vals: &Vec<Value>, span: Span) -> (r: Result<refinement::Value, ErrorKind>)
        ensures
            r == self.value(vals@, span),
    {
        let inj = value_frees(vals, &self.vars)?;
        Ok(refinement::Value { inj: list_of_frees(inj), span: Some(span) })
    }

    /// Captures the rest of a block from statement `index` on, with the
    /// label that it is known by and the names that it binds. Nothing is
    /// lowered before the lambda is instantiated.
    pub fn convert_lambda(
        &self,
        index: usize,
        block: &Rc<Block>,
        label: Option<(String, Option<Fun<NegTyp>>)>,
        names: &Vec<String>,
        span: Span,
    ) -> (l: Lambda)
        ensures
            l == self.lambda(index, *block, label, names@, span),
    {
        Lambda { desugar: self.clone(), block: block.clone(), index, label, names: List::from_vec(names), span }
    }
}

impl Lambda {
    /// The names in scope inside the lambda once it is instantiated with
    /// `args` and checked against `own`: its names stand for the terms, and
    /// its label for its signature, or for `own` where it has none.
    pub open spec fn scope(self, args: Seq<Term>, own: Fun<NegTyp>) -> Desugar {
        Desugar {
            named: self.desugar.named,
            terms: self.desugar.terms,
            vars: Rc::new(self.desugar.vars.bind_all(self.names.seq(), args, 0)),
            labels: match self.label {
                Some((n, Some(f))) => Rc::new(Scope::Bind(n, f, self.desugar.labels)),
                Some((n, None)) => Rc::new(Scope::Bind(n, own, self.desugar.labels)),
                None => self.desugar.labels,
            },
        }
    }

    /// What closes the block: a jump to a label in scope where a callee is
    /// named, a return otherwise.
    pub open spec fn end(this: Desugar, block: Rc<Block>) -> Result<Expr, ConsumeErr> {
        let span = Some(block.end.span);
        match this.value(block.end.args@, block.end.span) {
            Err(kind) => Err(ConsumeErr { kind, span }),
            Ok(value) => match block.end.func {
                Some(func) => match this.labels.get(func@) {
                    Some(label) => Ok(Expr::Loop(label, value)),
                    None => Err(ConsumeErr { kind: ErrorKind::Unbound, span }),
                },
                None => Ok(Expr::Return(value)),
            },
        }
    }

    /// The expression that statement `index` of the block stands for.
    ///
    /// A function defined inside gives two lambdas: its body from the first
    /// statement on, and the rest of the block. Both know the function by its
    /// name, so both may jump to it, and neither binds a new name. The rest
    /// of the block after a `let` binds the names of its results, and is
    /// known by the label of the `let` where it has one.
    pub open spec fn step(this: Desugar, block: Rc<Block>, index: usize) -> Result<Expr, ConsumeErr>
        recommends
            index < block.steps@.len(),
    {
        let next = (index + 1) as usize;
        match block.steps@[index as int] {
            Stmt::Let(s) => {
                let span = Some(s.bind.span);
                let rest = this.lambda(
                    next,
                    block,
                    match s.label {
                        Some(l) => Some((l, None)),
                        None => None,
                    },
                    s.names@,
                    s.bind.span,
                );
                match s.bind.func {
                    None => Err(ConsumeErr { kind: ErrorKind::Unbound, span }),
                    Some(name) => match (thunk_of(*this.labels, name@), this.value(s.bind.args@, s.bind.span)) {
                        (None, _) => Err(ConsumeErr { kind: ErrorKind::Unbound, span }),
                        (_, Err(kind)) => Err(ConsumeErr { kind, span }),
                        (Some(func), Ok(arg)) => Ok(Expr::Let(BoundExpr::App(func, arg), Rc::new(rest))),
                    },
                }
            },
            Stmt::FuncDef(f) => {
                let typ = this.neg(f.typ);
                let label = Some((f.name, Some(typ)));
                let rest = this.lambda(next, block, label, Seq::empty(), f.typ.args.span);
                let cont = this.lambda(0, f.block, label, Seq::empty(), f.typ.args.span);
                Ok(Expr::Let(BoundExpr::Cont(Rc::new(cont), typ), Rc::new(rest)))
            },
            Stmt::IfZero(z) => {
                let span = block.end.span;
                let rest = this.lambda(next, block, None, Seq::empty(), span);
                let cont = this.lambda(0, z.block, None, Seq::empty(), span);
                match z.val.lower(*this.vars) {
                    Err(kind) => Err(ConsumeErr { kind, span: Some(span) }),
                    Ok(local) => Ok(
                        Expr::Match(
                            local,
                            Rc::new(List::Cons(cont, Rc::new(List::Cons(rest, Rc::new(List::Nil))))),
                        ),
                    ),
                }
            },
            Stmt::Unpack(bind) => Lambda::pack(this, block, next, bind, true),
            Stmt::Pack(bind) => Lambda::pack(this, block, next, bind, false),
        }
    }

    /// The call that packs or unpacks a named resource.
    pub open spec fn pack(this: Desugar, block: Rc<Block>, next: usize, bind: super::expr::Bind, unpack: bool) -> Result<
        Expr,
        ConsumeErr,
    > {
        let span = Some(bind.span);
        let rest = this.lambda(next, block, None, Seq::empty(), bind.span);
        match bind.func {
            None => Err(ConsumeErr { kind: ErrorKind::Unbound, span }),
            Some(name) => match (this.named.0.get(name@), this.value(bind.args@, bind.span)) {
                (None, _) => Err(ConsumeErr { kind: ErrorKind::Unbound, span }),
                (_, Err(kind)) => Err(ConsumeErr { kind, span }),
                (Some(id), Ok(arg)) => Ok(
                    Expr::Let(BoundExpr::App(Thunk::Builtin(Builtin::Pack(id, unpack)), arg), Rc::new(rest)),
                ),
            },
        }
    }

    /// The expression that the lambda stands for once its names are bound
    /// to `args`: the statement at its index with the rest of the block as
    /// its continuation, or what closes the block. Names and terms are paired
    /// as far as both reach: a name without a term stays unbound, and a term
    /// without a name is not named.
    pub open spec fn expr(self, args: Seq<Term>, own: Fun<NegTyp>) -> Result<Expr, ConsumeErr> {
        if self.index < self.block.steps@.len() {
            Lambda::step(self.scope(args, own), self.block, self.index)
        } else {
            Lambda::end(self.scope(args, own), self.block)
        }
    }

    /// Instantiating a lambda gives an expression that weighs no more than
    /// the lambda.
    pub proof fn lemma_expr_weight(self, args: Seq<Term>, own: Fun<NegTyp>)
        ensures
            self.expr(args, own) matches Ok(e) ==> e.weight() <= self.weight(),
    {
        if self.index < self.block.steps@.len() {
            let steps = self.block.steps@;
            let i = self.index as int;
            assert(self.block.steps.len() == steps.len());
            assert(super::expr::steps_weight(steps, i) == 1 + super::expr::stmt_weight(steps[i])
                + super::expr::steps_weight(steps, i + 1));
            match steps[i] {
                Stmt::IfZero(z) => {
                    let this = self.scope(args, own);
                    let next = (self.index + 1) as usize;
                    let rest = this.lambda(next, self.block, None, Seq::empty(), self.block.end.span);
                    let cont = this.lambda(0, z.block, None, Seq::empty(), self.block.end.span);
                    let one = List::Cons(rest, Rc::new(List::Nil));
                    let two = List::Cons(cont, Rc::new(one));
                    assert(refinement::lambdas_weight(List::<Lambda>::Nil) == 0);
                    assert(refinement::lambdas_weight(one) == rest.weight());
                    assert(refinement::lambdas_weight(two) == cont.weight() + rest.weight());
                },
                _ => {},
            }
        }
    }

    fn inst_pack(this: &Desugar, block: &Rc<Block>, next: usize, bind: &super::expr::Bind, unpack: bool) -> (r: Result<
        Expr,
        ConsumeErr,
    >)
        ensures
            r == Lambda::pack(*this, *block, next, *bind, unpack),
    {
        let span = Some(bind.span);
        let rest = this.convert_lambda(next, block, None, &Vec::new(), bind.span);
        let name = match &bind.func {
            Some(name) => name,
            None => {
                return Err(ConsumeErr { kind: ErrorKind::Unbound, span });
            },
        };
        let id = match this.named.0.lookup(name) {
            Some(id) => *id,
            None => {
                return Err(ConsumeErr { kind: ErrorKind::Unbound, span });
            },
        };
        match this.convert_value(&bind.args, bind.span) {
            Err(kind) => Err(ConsumeErr { kind, span }),
            Ok(arg) => Ok(Expr::Let(BoundExpr::App(Thunk::Builtin(Builtin::Pack(id, unpack)), arg), Rc::new(rest))),
        }
    }

    fn inst_end(this: &Desugar, block: &Rc<Block>) -> (r: Result<Expr, ConsumeErr>)
        ensures
            r == Lambda::end(*this, *block),
    {
        let span = Some(block.end.span);
        match this.convert_value(&block.end.args, block.end.span) {
            Err(kind) => Err(ConsumeErr { kind, span }),
            Ok(value) => match &block.end.func {
                Some(func) => match this.labels.lookup(func) {
                    Some(label) => Ok(Expr::Loop(label.clone(), value)),
                    None => Err(ConsumeErr { kind: ErrorKind::Unbound, span }),
                },
                None => Ok(Expr::Return(value)),
            },
        }
    }

    fn inst_step(this: &Desugar, block: &Rc<Block>, index: usize) -> (r: Result<Expr, ConsumeErr>)
        requires
            index < block.steps@.len(),
        ensures
            r == Lambda::step(*this, *block, index),
    {
        assert(block.steps.len() == block.steps@.len());
        let next = index + 1;
        match &block.steps[index] {
            Stmt::Let(s) => {
                let span = Some(s.bind.span);
                let label = match &s.label {
                    Some(l) => Some((l.clone(), None)),
                    None => None,
                };
                let rest = this.convert_lambda(next, block, label, &s.names, s.bind.span);
                let name = match &s.bind.func {
                    Some(name) => name,
                    None => {
                        return Err(ConsumeErr { kind: ErrorKind::Unbound, span });
                    },
                };
                let func = match find_thunk(&this.labels, name) {
                    Some(func) => func,
                    None => {
                        return Err(ConsumeErr { kind: ErrorKind::Unbound, span });
                    },
                };
                match this.convert_value(&s.bind.args, s.bind.span) {
                    Err(kind) => Err(ConsumeErr { kind, span }),
                    Ok(arg) => Ok(Expr::Let(BoundExpr::App(func, arg), Rc::new(rest))),
                }
            },
            Stmt::FuncDef(f) => {
                let typ = this.convert_neg(&f.typ);
                let rest = this.convert_lambda(
                    next,
                    block,
                    Some((f.name.clone(), Some(typ.clone()))),
                    &Vec::new(),
                    f.typ.args.span,
                );
                let cont = this.convert_lambda(
                    0,
                    &f.block,
                    Some((f.name.clone(), Some(typ.clone()))),
                    &Vec::new(),
                    f.typ.args.span,
                );
                Ok(Expr::Let(BoundExpr::Cont(Rc::new(cont), typ), Rc::new(rest)))
            },
            Stmt::IfZero(z) => {
                let span = block.end.span;
                let rest = this.convert_lambda(next, block, None, &Vec::new(), span);
                let cont = this.convert_lambda(0, &z.block, None, &Vec::new(), span);
                match z.val.convert(&this.vars) {
                    Err(kind) => Err(ConsumeErr { kind, span: Some(span) }),
                    Ok(local) => Ok(
                        Expr::Match(
                            local,
                            Rc::new(List::Cons(cont, Rc::new(List::Cons(rest, Rc::new(List::Nil))))),
                        ),
                    ),
                }
            },
            Stmt::Unpack(bind) => Lambda::inst_pack(this, block, next, bind, true),
            Stmt::Pack(bind) => Lambda::inst_pack(this, block, next, bind, false),
        }
    }

    /// Instantiates the lambda: binds its names to `args`, binds its label
    /// to its signature, or to `own` where it has none, and lowers the
    /// statement at its index, or what closes its block.
    pub fn inst(&self, args: &Vec<Term>, own: &Fun<NegTyp>) -> (r: Result<Spanned<Expr>, ConsumeErr>)
        ensures
            match r {
                Ok(e) => self.expr(args@, *own) == Ok::<Expr, ConsumeErr>(e.val) && e.span == self.span
                    && e.val.weight() <= self.weight(),
                Err(e) => self.expr(args@, *own) == Err::<Expr, ConsumeErr>(e),
            },
    {
        proof {
            self.lemma_expr_weight(args@, *own);
        }
        let names = self.names.to_vec();
        let this = Desugar {
            named: self.desugar.named.clone(),
            terms: self.desugar.terms.clone(),
            vars: Scope::extend(&self.desugar.vars, &names, args),
            labels: match &self.label {
                Some((n, Some(f))) => Scope::bind(&self.desugar.labels, n, f.clone()),
                Some((n, None)) => Scope::bind(&self.desugar.labels, n, own.clone()),
                None => self.desugar.labels.clone(),
            },
        };
        let val = if self.index < self.block.steps.len() {
            Lambda::inst_step(&this, &self.block, self.index)?
        } else {
            Lambda::inst_end(&this, &self.block)?
        };
        Ok(Spanned { span: self.span, val })
    }
}

/// The named resources of a program before their types are elaborated:
/// each name with the type of the surface syntax that defines it. The
/// position of an entry is the identifier of its resource.
pub struct LazyNameList(pub Vec<(String, Rc<Spanned<super::types::PosTyp>>)>);

/// The position of the first entry from `i` on that has this name.
pub open spec fn entry_of(entries: Seq<(String, Rc<Spanned<super::types::PosTyp>>)>, name: Seq<char>, i: int) -> Option<
    int,
>
    decreases entries.len() - i,
{
    if 0 <= i < entries.len() {
        if entries[i].0@ == name {
            Some(i)
        } else {
            entry_of(entries, name, i + 1)
        }
    } else {
        None
    }
}

/// The entries with one more definition: it takes the place of the entry of
/// the same name where there is one, and comes last otherwise.
pub open spec fn put(
    entries: Seq<(String, Rc<Spanned<super::types::PosTyp>>)>,
    name: String,
    typ: Rc<Spanned<super::types::PosTyp>>,
) -> Seq<(String, Rc<Spanned<super::types::PosTyp>>)> {
    match entry_of(entries, name@, 0) {
        Some(k) => entries.update(k, (name, typ)),
        None => entries.push((name, typ)),
    }
}

/// The scope that binds the names of the first `n` entries to their
/// positions.
pub open spec fn positions(entries: Seq<(String, Rc<Spanned<super::types::PosTyp>>)>, n: int) -> Scope<usize>
    decreases n,
{
    if n <= 0 {
        Scope::Empty
    } else {
        Scope::Bind(entries[n - 1].0, (n - 1) as usize, Rc::new(positions(entries, n - 1)))
    }
}

/// A name that is bound to a position among the first `n` entries is bound
/// to a position below `n`.
pub proof fn lemma_positions_bound(
    entries: Seq<(String, Rc<Spanned<super::types::PosTyp>>)>,
    n: int,
    name: Seq<char>,
)
    requires
        0 <= n <= usize::MAX,
    ensures
        positions(entries, n).get(name) matches Some(id) ==> id < n,
    decreases n,
{
    if n > 0 {
        lemma_positions_bound(entries, n - 1, name);
    }
}

impl Desugar {
    /// The scope in which nothing but the named resources is known.
    pub open spec fn root(named: WeakNameList) -> Desugar {
        Desugar { named, terms: Rc::new(Scope::Empty), vars: Rc::new(Scope::Empty), labels: Rc::new(Scope::Empty) }
    }
}

impl LazyNameList {
    /// The identifiers that the names stand for.
    pub open spec fn scope(self) -> WeakNameList {
        WeakNameList(Rc::new(positions(self.0@, self.0@.len() as int)))
    }

    /// The named resource at position `i`: its type is elaborated in a scope
    /// that knows the identifier of every name of the list.
    pub open spec fn name(self, i: int) -> Name {
        Name { id: i as usize, typ: Desugar::root(self.scope()).pos(self.0@[i].1) }
    }

    /// A list without entries.
    pub fn new() -> (l: Self)
        ensures
            l.0@.len() == 0,
    {
        LazyNameList(Vec::new())
    }

    /// Declares a name. Its type is elaborated only by `fix`. A name that
    /// is declared again keeps its entry, and the later definition takes the
    /// place of the earlier one: a name has one resource.
    pub fn declare(&mut self, name: String, typ: Rc<Spanned<super::types::PosTyp>>)
        ensures
            final(self).0@ == put(old(self).0@, name, typ),
    {
        let mut i: usize = 0;
        while i < self.0.len()
            invariant
                i <= self.0.len(),
                self.0@ == old(self).0@,
                entry_of(self.0@, name@, i as int) == entry_of(self.0@, name@, 0),
            decreases self.0.len() - i,
        {
            if self.0[i].0 == name {
                self.0.set(i, (name, typ));
                return ;
            }
            i += 1;
        }
        self.0.push((name, typ));
    }

    /// The identifiers of all the names that are declared.
    pub fn weak(&self) -> (w: WeakNameList)
        ensures
            w == self.scope(),
    {
        let mut scope: Rc<Scope<usize>> = Rc::new(Scope::Empty);
        let mut i: usize = 0;
        while i < self.0.len()
            invariant
                i <= self.0.len(),
                *scope == positions(self.0@, i as int),
            decreases self.0.len() - i,
        {
            scope = Scope::bind(&scope, &self.0[i].0, i);
            i += 1;
        }
        WeakNameList(scope)
    }

    /// Elaborates the type of every name. Each type sees the identifiers of
    /// all the names, its own among them, so a definition may mention itself
    /// and those that come after it.
    pub fn fix(self) -> (names: Vec<Name>)
        ensures
            names@.len() == self.0@.len(),
            forall|i: int| 0 <= i < names@.len() ==> #[trigger] names@[i] == self.name(i),
    {
        let list = self.weak();
        let mut names: Vec<Name> = Vec::new();
        let mut i: usize = 0;
        while i < self.0.len()
            invariant
                i <= self.0.len(),
                list == self.scope(),
                names@.len() == i,
                forall|j: int| 0 <= j < i ==> names@[j] == self.name(j),
            decreases self.0.len() - i,
        {
            let this = Desugar::new(list.clone());
            let pos = this.convert_pos(self.0[i].1.clone());
            names.push(Name::new(i, pos));
            i += 1;
        }
        names
    }
}

/// No reference to a named resource is left open. Every identifier that the
/// scope of a list hands out for a name, the name of the definition that
/// mentions it included, belongs to an entry of the list, and the named
/// resource elaborated for that entry carries this identifier and sees the
/// same scope.
pub proof fn lemma_names_resolve(list: &LazyNameList, name: Seq<char>)
    ensures
        list.scope().0.get(name) matches Some(id) ==> {
            &&& id < list.0@.len()
            &&& list.name(id as int).id == id
            &&& list.name(id as int).typ.fun matches PosTyp::Declared { named, terms, typ }
            &&& named == list.scope()
            &&& typ == list.0@[id as int].1
        },
{
    assert(list.0.len() == list.0@.len());
    lemma_positions_bound(list.0@, list.0@.len() as int, name);
}

/// The named resources among the first `n` definitions, in the order in
/// which their names first come; of two definitions of one name the later
/// one stands.
pub open spec fn declared(defs: Seq<Def>, n: int) -> Seq<(String, Rc<Spanned<super::types::PosTyp>>)>
    decreases n,
{
    if n <= 0 {
        Seq::empty()
    } else {
        match defs[n - 1] {
            Def::Typ(named) => put(declared(defs, n - 1), named.name, named.typ),
            Def::Func(_) => declared(defs, n - 1),
        }
    }
}

/// The verdict on a function: its body, known by its own name, is checked
/// against its signature from a context that holds nothing.
#[verifier::opaque]
pub open spec fn verdict<O: Oracle>(sess: &Session<O>, this: Desugar, func: FuncDef) -> Result<(), ConsumeErr> {
    let neg = this.neg(func.typ);
    let lambda = this.lambda(
        0,
        func.block,
        Some((func.name, Some(neg))),
        func.typ.args.val.names@,
        func.typ.args.span,
    );
    State::empty().check_expr(sess, lambda, neg)
}

/// The verdict on a function does not depend on the other definitions of
/// the program: it is the verdict of checking the body of that function
/// alone against its signature, whatever the verdicts on the others are.
pub proof fn lemma_verdict_alone<O: Oracle>(sess: &Session<O>, this: Desugar, defs: Seq<Def>, n: int)
    requires
        0 < n <= defs.len(),
        defs[n - 1] is Func,
    ensures
        verdicts(sess, this, defs, n).len() == verdicts(sess, this, defs, n - 1).len() + 1,
        verdicts(sess, this, defs, n).last() == verdict(sess, this, defs[n - 1]->Func_0),
        verdicts(sess, this, defs, n).drop_last() == verdicts(sess, this, defs, n - 1),
        verdict(sess, this, defs[n - 1]->Func_0) == State::empty().check_expr(
            sess,
            this.lambda(
                0,
                (defs[n - 1]->Func_0).block,
                Some(((defs[n - 1]->Func_0).name, Some(this.neg((defs[n - 1]->Func_0).typ)))),
                (defs[n - 1]->Func_0).typ.args.val.names@,
                (defs[n - 1]->Func_0).typ.args.span,
            ),
            this.neg((defs[n - 1]->Func_0).typ),
        ),
{
    reveal(verdict);
    assert(verdicts(sess, this, defs, n).drop_last() =~= verdicts(sess, this, defs, n - 1));
}

/// The verdicts on the functions among the first `n` definitions, in order.
pub open spec fn verdicts<O: Oracle>(sess: &Session<O>, this: Desugar, defs: Seq<Def>, n: int) -> Seq<
    Result<(), ConsumeErr>,
>
    decreases n,
{
    if n <= 0 {
        Seq::empty()
    } else {
        match defs[n - 1] {
            Def::Func(func) => verdicts(sess, this, defs, n - 1).push(verdict(sess, this, func)),
            Def::Typ(_) => verdicts(sess, this, defs, n - 1),
        }
    }
}

impl Desugar {
    /// Collects the named resources of a program and elaborates them.
    pub fn names(m: &Module) -> (r: (WeakNameList, Vec<Name>))
        ensures
            r.0 == WeakNameList(
                Rc::new(positions(declared(m.0@, m.0@.len() as int), declared(m.0@, m.0@.len() as int).len() as int)),
            ),
            r.1@.len() == declared(m.0@, m.0@.len() as int).len(),
            forall|i: int|
                0 <= i < r.1@.len() ==> #[trigger] r.1@[i] == (Name {
                    id: i as usize,
                    typ: Desugar::root(r.0).pos(declared(m.0@, m.0@.len() as int)[i].1),
                }),
    {
        let mut list = LazyNameList::new();
        let mut i: usize = 0;
        while i < m.0.len()
            invariant
                i <= m.0.len(),
                list.0@ == declared(m.0@, i as int),
            decreases m.0.len() - i,
        {
            match &m.0[i] {
                Def::Func(_) => {},
                Def::Typ(named) => {
                    list.declare(named.name.clone(), named.typ.clone());
                },
            }
            i += 1;
        }
        let ghost entries = list.0@;
        let ghost scope = list.scope();
        let weak = list.weak();
        let names = list.fix();
        assert forall|i: int| 0 <= i < names@.len() implies names@[i] == (Name {
            id: i as usize,
            typ: Desugar::root(weak).pos(entries[i].1),
        }) by {
            assert(names@[i].typ == Desugar::root(scope).pos(entries[i].1));
        }
        (weak, names)
    }

    /// Checks every function of a program against its signature. A function
    /// that fails does not keep the others from being checked: the result
    /// holds one verdict for each function, in the order of the program.
    pub fn check<O: Oracle>(m: &Module, sess: &Session<O>, named: &WeakNameList) -> (r: Vec<Result<(), ConsumeErr>>)
        ensures
            r@ == verdicts(sess, Desugar::root(*named), m.0@, m.0@.len() as int),
    {
        let this = Desugar::new(named.clone());
        let mut out: Vec<Result<(), ConsumeErr>> = Vec::new();
        let mut i: usize = 0;
        while i < m.0.len()
            invariant
                i <= m.0.len(),
                this == Desugar::root(*named),
                out@ == verdicts(sess, this, m.0@, i as int),
            decreases m.0.len() - i,
        {
            match &m.0[i] {
                Def::Func(func) => {
                    let neg = this.convert_neg(&func.typ);
                    let lambda = this.convert_lambda(
                        0,
                        &func.block,
                        Some((func.name.clone(), Some(neg.clone()))),
                        &func.typ.args.val.names,
                        func.typ.args.span,
                    );
                    let ctx = SubContext::new();
                    proof {
                        reveal(verdict);
                    }
                    out.push(ctx.check_expr(sess, &lambda, &neg));
                },
                Def::Typ(_) => {},
            }
            i += 1;
        }
        out
    }
}

/// Checks a program from its syntax tree alone: collects and elaborates its
/// named resources, sets up a session with the oracle and the bound on
/// unfolding, and checks every function against its signature. The result
/// holds the session, the identifiers of the named resources by name, and
/// one verdict for each function, in the order of the program.
pub fn check_module<O: Oracle>(m: &Module, oracle: O, depth: usize) -> (r: (
    Session<O>,
    WeakNameList,
    Vec<Result<(), ConsumeErr>>,
))
    ensures
        r.0.oracle == oracle,
        r.0.depth == depth,
        r.0.builtins.loaded(),
        r.1 == WeakNameList(
            Rc::new(positions(declared(m.0@, m.0@.len() as int), declared(m.0@, m.0@.len() as int).len() as int)),
        ),
        r.0.names@.len() == declared(m.0@, m.0@.len() as int).len(),
        forall|i: int|
            0 <= i < r.0.names@.len() ==> #[trigger] r.0.names@[i] == (Name {
                id: i as usize,
                typ: Desugar::root(r.1).pos(declared(m.0@, m.0@.len() as int)[i].1),
            }),
        r.2@ == verdicts(&r.0, Desugar::root(r.1), m.0@, m.0@.len() as int),
{
    let (named, names) = Desugar::names(m);
    let sess = Session::new(oracle, names, depth);
    let verdicts = Desugar::check(m, &sess, &named);
    (sess, named, verdicts)
}

} // verus!
