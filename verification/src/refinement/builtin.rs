//! The primitives of the language and the checks on operators.

use super::heap::SubContext;
use super::list::Scope;
use super::oracle::Oracle;
use super::term::{BinOp, Term};
use super::{ErrorKind, Fun, Name, NegTyp, Session, Span, Spanned, WeakNameList};
use crate::parse::desugar::Desugar;
use crate::parse::expr::{self, BinOpValue, Bind, Value};
use crate::parse::types::{self, Constraint, Forall, Prop, PropOp};
use std::rc::Rc;
use vstd::prelude::*;

verus! {

/// What a call can apply besides a function in scope.
#[derive(Clone, Copy, Debug, PartialEq, Eq, Structural)]
pub enum Builtin {
    /// Reads the byte at an address.
    Read,
    /// Writes a byte to an address.
    Write,
    /// Packs the parts of the named resource with this identifier into the
    /// resource, or, where the flag is set, unpacks the resource into them.
    Pack(usize, bool),
    /// Allocates pages of bytes.
    Alloc,
}

/// The signatures of the memory primitives.
pub struct Builtins {
    pub read: Fun<NegTyp>,
    pub write: Fun<NegTyp>,
    pub alloc: Fun<NegTyp>,
}

/// The proposition that a term is not zero.
pub open spec fn nonzero(t: Term) -> Term {
    Term::Op(BinOp::NotEq, Rc::new(t), Rc::new(Term::Nat(0, t.size())))
}

/// Whether an operator may be applied to two terms under these facts: the
/// widths must agree, and the oracle must grant that a divisor is not zero.
pub open spec fn binop_ok<O: Oracle>(o: &O, facts: Seq<Term>, op: BinOp, l: Term, r: Term) -> Result<(), ErrorKind> {
    if l.size() != r.size() {
        Err(ErrorKind::Sort)
    } else if (op == BinOp::Div || op == BinOp::Rem) && !o.entails(facts, nonzero(r)) {
        Err(ErrorKind::Unprovable)
    } else {
        Ok(())
    }
}

impl SubContext {
    /// Checks that an operator may be applied to two terms: operands of two
    /// widths are refused with `Sort`, and a divisor that the oracle does not
    /// grant to differ from zero with `Unprovable`.
    pub fn check_binop<O: Oracle>(&self, sess: &Session<O>, op: &BinOp, l: &Term, r: &Term) -> (res: Result<
        (),
        ErrorKind,
    >)
        ensures
            res == binop_ok(&sess.oracle, self@.facts, *op, *l, *r),
    {
        if l.get_size() != r.get_size() {
            return Err(ErrorKind::Sort);
        }
        match op {
            BinOp::Div | BinOp::Rem => self.verify_prop(sess, &r.not_zero()),
            _ => Ok(()),
        }
    }
}

/// Whether a value is the variable of this name.
pub open spec fn is_var(v: Value, name: Seq<char>) -> bool {
    v matches Value::Var(n) && n@ == name
}

/// Whether an obligation is the byte cell at the address `ptr`, its value
/// bound to `bound` where that is a name.
pub open spec fn is_byte(c: Constraint, bound: Option<Seq<char>>, ptr: Seq<char>) -> bool {
    &&& c matches Constraint::Builtin(name, call)
    &&& match (name, bound) {
        (Some(x), Some(y)) => x@ == y,
        (None, None) => true,
        _ => false,
    }
    &&& call.func matches Some(f) && f@ == "@byte"@
    &&& call.args@.len() == 1
    &&& is_var(call.args@[0], ptr)
    &&& call.span == (Span { offset: 0, len: 0 })
}

/// Whether an obligation is the proposition that relates the variables `l`
/// and `r`.
pub open spec fn is_rel(c: Constraint, l: Seq<char>, op: PropOp, r: Seq<char>) -> bool {
    c matches Constraint::Assert(p) && is_var(p.l, l) && p.op == op && is_var(p.r, r)
}

/// Whether a value is the variable `l` joined to the variable `r`.
pub open spec fn is_arith(v: Value, l: Seq<char>, op: expr::BinOp, r: Seq<char>) -> bool {
    v matches Value::BinOp(b) && is_var(*b.l, l) && b.op == op && is_var(*b.r, r)
}

/// Whether a type binds exactly one name, `name`.
pub open spec fn binds_one(t: types::PosTyp, name: Seq<char>) -> bool {
    t.names@.len() == 1 && t.names@[0]@ == name
}

/// Whether a type and all its obligations have the start of the text for
/// their place.
pub open spec fn at_origin(t: Spanned<types::PosTyp>) -> bool {
    &&& t.span == (Span { offset: 0, len: 0 })
    &&& forall|k: int| 0 <= k < t.val.parts@.len() ==> (#[trigger] t.val.parts@[k]).span == (Span { offset: 0, len: 0 })
}

/// Whether a function type is written in a scope that knows no name, with
/// the start of the text for the place of all its parts.
pub open spec fn closed(f: Fun<NegTyp>) -> bool {
    &&& f.fun matches NegTyp::Declared { named, terms, args, ret }
    &&& *named.0 == Scope::<usize>::Empty
    &&& *terms == Scope::<Term>::Empty
    &&& *f.tau == super::words(args.val.names@)
    &&& f.span == Some(Span { offset: 0, len: 0 })
    &&& at_origin(*args)
    &&& at_origin(*ret)
}

impl Builtins {
    /// To read at `ptr` takes the byte cell at `ptr`, of value `val`. The
    /// result `ret` equals `val`, and the cell comes back with a value
    /// `new` that equals `val`.
    pub open spec fn reads(f: Fun<NegTyp>) -> bool {
        &&& closed(f)
        &&& f.fun matches NegTyp::Declared { named, terms, args, ret }
        &&& binds_one(args.val, "ptr"@)
        &&& args.val.parts@.len() == 1
        &&& is_byte(args.val.parts@[0].val, Some("val"@), "ptr"@)
        &&& binds_one(ret.val, "ret"@)
        &&& ret.val.parts@.len() == 3
        &&& is_rel(ret.val.parts@[0].val, "ret"@, PropOp::Eq, "val"@)
        &&& is_byte(ret.val.parts@[1].val, Some("new"@), "ptr"@)
        &&& is_rel(ret.val.parts@[2].val, "new"@, PropOp::Eq, "val"@)
    }

    /// To write `val` at `ptr` takes the byte cell at `ptr`. There is no
    /// result, and the cell comes back with a value `new` that equals `val`.
    pub open spec fn writes(f: Fun<NegTyp>) -> bool {
        &&& closed(f)
        &&& f.fun matches NegTyp::Declared { named, terms, args, ret }
        &&& args.val.names@.len() == 2
        &&& args.val.names@[0]@ == "ptr"@
        &&& args.val.names@[1]@ == "val"@
        &&& args.val.parts@.len() == 1
        &&& is_byte(args.val.parts@[0].val, None, "ptr"@)
        &&& ret.val.names@.len() == 0
        &&& ret.val.parts@.len() == 2
        &&& is_byte(ret.val.parts@[0].val, Some("new"@), "ptr"@)
        &&& is_rel(ret.val.parts@[1].val, "new"@, PropOp::Eq, "val"@)
    }

    /// To allocate `pages` bytes takes nothing. The result `start` comes
    /// with a byte cell at every `ptr` with `ptr - start < pages`, and
    /// `start <= start + pages` holds.
    pub open spec fn allocates(f: Fun<NegTyp>) -> bool {
        &&& closed(f)
        &&& f.fun matches NegTyp::Declared { named, terms, args, ret }
        &&& binds_one(args.val, "pages"@)
        &&& args.val.parts@.len() == 0
        &&& binds_one(ret.val, "start"@)
        &&& ret.val.parts@.len() == 2
        &&& ret.val.parts@[0].val matches Constraint::Forall(all)
        &&& all.named@ == "@byte"@
        &&& all.names@.len() == 1
        &&& all.names@[0]@ == "ptr"@
        &&& is_arith(all.cond.l, "ptr"@, expr::BinOp::Minus, "start"@)
        &&& all.cond.op == PropOp::Less
        &&& is_var(all.cond.r, "pages"@)
        &&& ret.val.parts@[1].val matches Constraint::Assert(p)
        &&& is_var(p.l, "start"@)
        &&& p.op == PropOp::LessEq
        &&& is_arith(p.r, "start"@, expr::BinOp::Plus, "pages"@)
    }

    /// Whether the three signatures are those of the memory primitives.
    pub open spec fn loaded(self) -> bool {
        Builtins::reads(self.read) && Builtins::writes(self.write) && Builtins::allocates(self.alloc)
    }

    /// The signatures of the memory primitives, written in the surface
    /// syntax and lowered as the signature of any function is.
    pub fn load() -> (b: Self)
        ensures
            b.loaded(),
    {
        let this = Desugar::new(WeakNameList(Rc::new(Scope::Empty)));
        let read = types::NegTyp {
            args: typ(names1("ptr"), parts1(byte(Some("val"), "ptr"))),
            ret: typ(names1("ret"), parts3(rel("ret", PropOp::Eq, "val"), byte(Some("new"), "ptr"), rel("new", PropOp::Eq, "val"))),
        };
        let write = types::NegTyp {
            args: typ(names2("ptr", "val"), parts1(byte(None, "ptr"))),
            ret: typ(Vec::new(), parts2(byte(Some("new"), "ptr"), rel("new", PropOp::Eq, "val"))),
        };
        let all = Forall {
            named: "@byte".to_owned(),
            names: names1("ptr"),
            cond: Rc::new(Prop { l: arith("ptr", expr::BinOp::Minus, "start"), r: var("pages"), op: PropOp::Less }),
        };
        let grows = Prop { l: var("start"), r: arith("start", expr::BinOp::Plus, "pages"), op: PropOp::LessEq };
        let alloc = types::NegTyp {
            args: typ(names1("pages"), Vec::new()),
            ret: typ(names1("start"), parts2(Constraint::Forall(all), Constraint::Assert(grows))),
        };
        Builtins { read: this.convert_neg(&read), write: this.convert_neg(&write), alloc: this.convert_neg(&alloc) }
    }
}

fn origin() -> (s: Span)
    ensures
        s == (Span { offset: 0, len: 0 }),
{
    Span { offset: 0, len: 0 }
}

fn var(name: &str) -> (v: Value)
    ensures
        is_var(v, name@),
{
    Value::Var(name.to_owned())
}

fn arith(l: &str, op: expr::BinOp, r: &str) -> (v: Value)
    ensures
        is_arith(v, l@, op, r@),
{
    Value::BinOp(BinOpValue { l: Rc::new(var(l)), r: Rc::new(var(r)), op })
}

fn byte(bound: Option<&str>, ptr: &str) -> (c: Constraint)
    ensures
        is_byte(
            c,
            match bound {
                Some(b) => Some(b@),
                None => None,
            },
            ptr@,
        ),
{
    let mut args: Vec<Value> = Vec::new();
    args.push(var(ptr));
    let name = match bound {
        Some(b) => Some(b.to_owned()),
        None => None,
    };
    Constraint::Builtin(name, Bind { func: Some("@byte".to_owned()), args, span: origin() })
}

fn rel(l: &str, op: PropOp, r: &str) -> (c: Constraint)
    ensures
        is_rel(c, l@, op, r@),
{
    Constraint::Assert(Prop { l: var(l), r: var(r), op })
}

fn names1(a: &str) -> (v: Vec<String>)
    ensures
        v@.len() == 1,
        v@[0]@ == a@,
{
    let mut v: Vec<String> = Vec::new();
    v.push(a.to_owned());
    v
}

fn names2(a: &str, b: &str) -> (v: Vec<String>)
    ensures
        v@.len() == 2,
        v@[0]@ == a@,
        v@[1]@ == b@,
{
    let mut v: Vec<String> = Vec::new();
    v.push(a.to_owned());
    v.push(b.to_owned());
    v
}

fn parts1(a: Constraint) -> (v: Vec<Spanned<Constraint>>)
    ensures
        v@.len() == 1,
        v@[0].val == a,
        forall|k: int| 0 <= k < v@.len() ==> (#[trigger] v@[k]).span == (Span { offset: 0, len: 0 }),
{
    let mut v: Vec<Spanned<Constraint>> = Vec::new();
    v.push(Spanned { span: origin(), val: a });
    v
}

fn parts2(a: Constraint, b: Constraint) -> (v: Vec<Spanned<Constraint>>)
    ensures
        v@.len() == 2,
        v@[0].val == a,
        v@[1].val == b,
        forall|k: int| 0 <= k < v@.len() ==> (#[trigger] v@[k]).span == (Span { offset: 0, len: 0 }),
{
    let mut v: Vec<Spanned<Constraint>> = Vec::new();
    v.push(Spanned { span: origin(), val: a });
    v.push(Spanned { span: origin(), val: b });
    v
}

fn parts3(a: Constraint, b: Constraint, c: Constraint) -> (v: Vec<Spanned<Constraint>>)
    ensures
        v@.len() == 3,
        v@[0].val == a,
        v@[1].val == b,
        v@[2].val == c,
        forall|k: int| 0 <= k < v@.len() ==> (#[trigger] v@[k]).span == (Span { offset: 0, len: 0 }),
{
    let mut v: Vec<Spanned<Constraint>> = Vec::new();
    v.push(Spanned { span: origin(), val: a });
    v.push(Spanned { span: origin(), val: b });
    v.push(Spanned { span: origin(), val: c });
    v
}

fn typ(names: Vec<String>, parts: Vec<Spanned<Constraint>>) -> (t: Rc<Spanned<types::PosTyp>>)
    ensures
        t.val.names == names,
        t.val.parts == parts,
        t.span == (Span { offset: 0, len: 0 }),
{
    Rc::new(Spanned { span: origin(), val: types::PosTyp { names, parts } })
}

impl<O: Oracle> Session<O> {
    /// A session with the signatures of the memory primitives loaded.
    pub fn new(oracle: O, names: Vec<Name>, depth: usize) -> (s: Self)
        ensures
            s.oracle == oracle,
            s.names == names,
            s.depth == depth,
            s.builtins.loaded(),
    {
        Session { oracle, names, builtins: Builtins::load(), depth }
    }
}

} // verus!
