//! The typed intermediate language and the engine that checks it.
//!
//! [`term`] holds the symbolic words and [`oracle`] the question that is put
//! to a prover. [`heap`] and [`unfold`] say how the obligations of a type are
//! met on a context, by consumption or by production; [`typing`] checks
//! expressions against types; [`builtin`] holds the memory primitives.
//! [`constraint`] solves placeholders, [`determined`] tells which index
//! variables a declarative type determines, and [`laws`] states what holds
//! of all of this.

pub mod builtin;
pub mod constraint;
pub mod determined;
pub mod heap;
pub mod laws;
pub mod list;
pub mod oracle;
pub mod term;
pub mod typing;
pub mod unfold;

use self::builtin::{Builtin, Builtins};
use self::list::{Dup, List, Scope, Terms};
use self::oracle::Oracle;
use self::term::{Free, Term};
use crate::parse;
use crate::parse::desugar::Desugar;
use crate::parse::expr::Block;
use std::rc::Rc;
use vstd::prelude::*;

verus! {

/// A stretch of source text: where it starts and how long it is.
#[derive(Clone, Copy, Debug, PartialEq, Eq, Structural)]
pub struct Span {
    pub offset: usize,
    pub len: usize,
}

/// A value and the stretch of source text that it was read from.
pub struct Spanned<T> {
    pub span: Span,
    pub val: T,
}

impl<T> Spanned<T> {
    pub fn as_ref(&self) -> (r: &T)
        ensures
            *r == self.val,
    {
        &self.val
    }
}


/// Why a check failed.
#[derive(Clone, Copy, Debug, PartialEq, Eq, Structural)]
pub enum ErrorKind {
    /// A resource that is needed is not there.
    Absent,
    /// Resources are left over where none may be.
    Leak,
    /// A term is used at the wrong sort or width.
    Sort,
    /// The number of arguments is not the number of parameters.
    Arity,
    /// A type is not a subtype of the type that is expected.
    Subtype,
    /// The oracle does not grant a proposition.
    Unprovable,
    /// A placeholder has no solution.
    Undetermined,
    /// A name has no binding.
    Unbound,
    /// Named resources are unfolded more deeply than the session allows, or
    /// the supply of fresh variables is used up.
    Limit,
}

/// A failure and the stretch of source text that it belongs to.
#[derive(Clone, Copy, Debug, PartialEq, Eq)]
pub struct ConsumeErr {
    pub kind: ErrorKind,
    pub span: Option<Span>,
}

/// Which resource a family is made of.
#[derive(Clone, Copy, Debug, PartialEq, Eq, Structural)]
pub enum Resource {
    /// The named resource with this identifier.
    Named(usize),
    /// An owned byte.
    Owned,
}

/// A term over family indices: a function from index terms to a term.
pub struct FuncTerm {
    pub arity: usize,
    pub body: Term,
}

/// A resource at every index where a mask holds.
pub struct Forall {
    pub named: Resource,
    pub mask: FuncTerm,
    pub span: Option<Span>,
}

/// A family that a context holds, and the addresses whose cells were taken
/// out of it one by one.
pub struct CtxForall {
    pub have: Forall,
    pub taken: Rc<Terms>,
}

/// A named resource that is there where a condition holds and is nothing
/// otherwise, waiting for the condition to be decided.
pub struct Cond {
    pub named: usize,
    pub cond: Term,
    pub args: Rc<Terms>,
    pub span: Option<Span>,
}

impl Clone for FuncTerm {
    fn clone(&self) -> (r: Self)
        ensures
            r == *self,
    {
        FuncTerm { arity: self.arity, body: self.body.clone() }
    }
}

impl Clone for Forall {
    fn clone(&self) -> (r: Self)
        ensures
            r == *self,
    {
        Forall { named: self.named, mask: self.mask.clone(), span: self.span }
    }
}

impl Clone for CtxForall {
    fn clone(&self) -> (r: Self)
        ensures
            r == *self,
    {
        CtxForall { have: self.have.clone(), taken: self.taken.clone() }
    }
}

impl Clone for Cond {
    fn clone(&self) -> (r: Self)
        ensures
            r == *self,
    {
        Cond { named: self.named, cond: self.cond.clone(), args: self.args.clone(), span: self.span }
    }
}

impl FuncTerm {
    /// The term at the given indices.
    pub open spec fn at(self, args: Seq<Term>) -> Term {
        self.body.subst(args)
    }

    pub fn apply(&self, args: &Vec<Term>) -> (t: Term)
        ensures
            t == self.at(args@),
    {
        self.body.inst(args)
    }
}

/// A type abstracted over its parameters: the width and the name of each,
/// where it was written, and what applying it to terms asks of a context.
pub struct Fun<T> {
    pub tau: Rc<List<(u32, String)>>,
    pub span: Option<Span>,
    pub fun: T,
}

/// A result type: the obligations that come with the values of a result.
#[allow(inconsistent_fields)]
pub enum PosTyp {
    /// A type of the surface syntax with the names that were in scope where it
    /// was written.
    Declared { named: WeakNameList, terms: Rc<Scope<Term>>, typ: Rc<Spanned<parse::types::PosTyp>> },
    /// One proposition.
    Holds(Term),
    /// What packing or unpacking a named resource at these arguments hands
    /// out: the packed resource, or its parts.
    Packed { named: usize, unpack: bool, args: Rc<Terms> },
}

/// A function type: the obligations on the arguments and the result type.
#[allow(inconsistent_fields)]
pub enum NegTyp {
    /// A signature of the surface syntax with the names that were in scope
    /// where it was written.
    Declared {
        named: WeakNameList,
        terms: Rc<Scope<Term>>,
        args: Rc<Spanned<parse::types::PosTyp>>,
        ret: Rc<Spanned<parse::types::PosTyp>>,
    },
    /// From an argument type to a result type that does not depend on it.
    Arrow { arg: Rc<Fun<PosTyp>>, ret: Rc<Fun<PosTyp>> },
    /// Packs the parts of a named resource into the resource, or unpacks it.
    Pack { named: usize, unpack: bool },
}

/// The identifiers of the named resources, by name.
pub struct WeakNameList(pub Rc<Scope<usize>>);

impl Clone for WeakNameList {
    fn clone(&self) -> (r: Self)
        ensures
            r == *self,
    {
        WeakNameList(self.0.clone())
    }
}

impl Clone for PosTyp {
    fn clone(&self) -> (r: Self)
        ensures
            r == *self,
    {
        match self {
            PosTyp::Declared { named, terms, typ } => PosTyp::Declared {
                named: named.clone(),
                terms: terms.clone(),
                typ: typ.clone(),
            },
            PosTyp::Holds(t) => PosTyp::Holds(t.clone()),
            PosTyp::Packed { named, unpack, args } => PosTyp::Packed {
                named: *named,
                unpack: *unpack,
                args: args.clone(),
            },
        }
    }
}

impl Clone for NegTyp {
    fn clone(&self) -> (r: Self)
        ensures
            r == *self,
    {
        match self {
            NegTyp::Declared { named, terms, args, ret } => NegTyp::Declared {
                named: named.clone(),
                terms: terms.clone(),
                args: args.clone(),
                ret: ret.clone(),
            },
            NegTyp::Arrow { arg, ret } => NegTyp::Arrow { arg: arg.clone(), ret: ret.clone() },
            NegTyp::Pack { named, unpack } => NegTyp::Pack { named: *named, unpack: *unpack },
        }
    }
}

/// The parameters that names stand for: each a word of width 32.
pub open spec fn words(names: Seq<String>) -> List<(u32, String)> {
    List::of(Seq::new(names.len(), |i: int| (32u32, names[i])), 0)
}

/// The parameters that names stand for: each a word of width 32.
pub fn words_of(names: &Vec<String>) -> (tau: Rc<List<(u32, String)>>)
    ensures
        *tau == words(names@),
        tau.seq().len() == names@.len(),
{
    let mut v: Vec<(u32, String)> = Vec::new();
    let mut i: usize = 0;
    while i < names.len()
        invariant
            i <= names.len(),
            v@.len() == i,
            forall|j: int| 0 <= j < i ==> v@[j] == (32u32, names@[j]),
        decreases names.len() - i,
    {
        v.push((32, names[i].clone()));
        i += 1;
    }
    assert(v@ =~= Seq::new(names@.len(), |i: int| (32u32, names@[i])));
    List::from_vec(&v)
}

/// The list of the parameters that names stand for has one for each name.
pub proof fn lemma_words_len(names: Seq<String>)
    ensures
        words(names).seq().len() == names.len(),
{
    let s = Seq::new(names.len(), |i: int| (32u32, names[i]));
    List::lemma_of_seq(s, 0);
    assert(s.subrange(0, s.len() as int) =~= s);
}

impl<T> Fun<T> {
    /// The number of parameters.
    pub open spec fn arity(self) -> nat {
        self.tau.seq().len()
    }

    /// The number of parameters.
    pub fn count(&self) -> (n: usize)
        ensures
            n == self.arity(),
    {
        self.tau.to_vec().len()
    }
}

impl NegTyp {
    /// Whether a function type asks nothing of its arguments, of which there
    /// are none, and returns `ret`.
    pub open spec fn returns_only(self, ret: Fun<PosTyp>) -> bool {
        &&& self matches NegTyp::Arrow { arg, ret: given }
        &&& *given == ret
        &&& *arg.tau == List::<(u32, String)>::Nil
        &&& arg.span is None
        &&& arg.fun matches PosTyp::Declared { named, terms, typ }
        &&& *named.0 == Scope::<usize>::Empty
        &&& *terms == Scope::<Term>::Empty
        &&& typ.val.names@.len() == 0
        &&& typ.val.parts@.len() == 0
    }

    /// The function type that asks nothing of its arguments and returns
    /// `ret`.
    pub fn new(ret: Fun<PosTyp>) -> (n: Self)
        ensures
            n.returns_only(ret),
    {
        let nothing = parse::types::PosTyp { names: Vec::new(), parts: Vec::new() };
        let arg = Fun {
            tau: Rc::new(List::Nil),
            span: None,
            fun: PosTyp::Declared {
                named: WeakNameList(Rc::new(Scope::Empty)),
                terms: Rc::new(Scope::Empty),
                typ: Rc::new(Spanned { span: Span { offset: 0, len: 0 }, val: nothing }),
            },
        };
        NegTyp::Arrow { arg: Rc::new(arg), ret: Rc::new(ret) }
    }
}

impl Clone for Fun<PosTyp> {
    fn clone(&self) -> (r: Self)
        ensures
            r == *self,
    {
        Fun { tau: self.tau.clone(), span: self.span, fun: self.fun.clone() }
    }
}

impl Clone for Fun<NegTyp> {
    fn clone(&self) -> (r: Self)
        ensures
            r == *self,
    {
        Fun { tau: self.tau.clone(), span: self.span, fun: self.fun.clone() }
    }
}

/// A named resource: its identifier and the type that defines it.
pub struct Name {
    pub id: usize,
    pub typ: Fun<PosTyp>,
}

impl Name {
    pub fn new(id: usize, typ: Fun<PosTyp>) -> (n: Self)
        ensures
            n == (Name { id, typ }),
    {
        Name { id, typ }
    }
}

/// What a check is run with: the oracle, the named resources by identifier,
/// the signatures of the memory primitives, and how deeply named resources
/// may be unfolded inside one another.
pub struct Session<O: Oracle> {
    pub oracle: O,
    pub names: Vec<Name>,
    pub builtins: Builtins,
    pub depth: usize,
}

/// The terms that stand for the parameters of a type, and what applying the
/// type to them gave.
pub struct Solved<T> {
    pub terms: Vec<Term>,
    pub inner: T,
}

/// The expressions whose values a return, a call or a jump hands over.
pub struct Value {
    pub inj: Rc<List<Free<Term>>>,
    pub span: Option<Span>,
}

/// What a call applies: a function in scope, by its signature, or a
/// primitive.
pub enum Thunk {
    Local(Fun<NegTyp>),
    Builtin(Builtin),
}

/// The rest of a block from one of its statements on, with the names that
/// were in scope before it, the label that it is known by, and the names
/// that it binds to the terms it is instantiated with. The label of a
/// function comes with the signature of the function; the label of the rest
/// of a block after a call has for its signature the type that the rest is
/// checked against.
pub struct Lambda {
    pub desugar: Desugar,
    pub block: Rc<Block>,
    pub index: usize,
    pub label: Option<(String, Option<Fun<NegTyp>>)>,
    pub names: Rc<List<String>>,
    pub span: Span,
}

/// An expression of the typed language.
pub enum Expr {
    /// Hands back values.
    Return(Value),
    /// Runs a bound expression and goes on with its results.
    Let(BoundExpr, Rc<Lambda>),
    /// Chooses a branch by the value of an expression: branch `i` where the
    /// value is `i`, and the last branch for every value from its position
    /// on.
    Match(Free<Term>, Rc<List<Lambda>>),
    /// Jumps to a label in scope, given by its signature, with arguments.
    Loop(Fun<NegTyp>, Value),
}

pub enum BoundExpr {
    /// Applies a function to arguments.
    App(Thunk, Value),
    /// Defines a function with this body and this signature.
    Cont(Rc<Lambda>, Fun<NegTyp>),
}

impl Default for Value {
    /// No values, read from nowhere.
    fn default() -> (v: Self)
        ensures
            *v.inj == List::<Free<Term>>::Nil,
            v.span is None,
    {
        Value { inj: Rc::new(List::Nil), span: None }
    }
}

impl Clone for Value {
    fn clone(&self) -> (r: Self)
        ensures
            r == *self,
    {
        Value { inj: self.inj.clone(), span: self.span }
    }
}

impl Clone for Lambda {
    fn clone(&self) -> (r: Self)
        ensures
            r == *self,
    {
        Lambda {
            desugar: self.desugar.clone(),
            block: self.block.clone(),
            index: self.index,
            label: match &self.label {
                Some((n, Some(f))) => Some((n.clone(), Some(f.clone()))),
                Some((n, None)) => Some((n.clone(), None)),
                None => None,
            },
            names: self.names.clone(),
            span: self.span,
        }
    }
}

impl Dup for Lambda {
    fn dup(&self) -> (r: Self) {
        self.clone()
    }
}

impl Lambda {
    /// A bound on the number of expressions that instantiating the lambda,
    /// and then those inside what that gives, can ever give.
    pub open spec fn weight(self) -> nat {
        crate::parse::expr::steps_weight(self.block.steps@, self.index as int) + 1
    }
}

/// The sum of the weights of the lambdas of a list.
pub open spec fn lambdas_weight(l: List<Lambda>) -> nat
    decreases l,
{
    match l {
        List::Nil => 0,
        List::Cons(x, rest) => x.weight() + lambdas_weight(*rest),
    }
}

impl Expr {
    /// One more than the sum of the weights of the lambdas of the
    /// expression, or zero where it has none.
    pub open spec fn weight(self) -> nat {
        match self {
            Expr::Return(_) => 0,
            Expr::Loop(_, _) => 0,
            Expr::Let(BoundExpr::App(_, _), l) => l.weight() + 1,
            Expr::Let(BoundExpr::Cont(c, _), l) => c.weight() + l.weight() + 1,
            Expr::Match(_, pats) => lambdas_weight(*pats) + 1,
        }
    }
}

} // verus!

