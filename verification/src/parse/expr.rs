//! Statements and values as a parser hands them over.

use super::types::{NamedConstraint, NegTyp, Prop};
use crate::refinement::Span;
use std::rc::Rc;
use vstd::prelude::*;

verus! {

/// The arithmetic operators of the surface syntax.
#[derive(Clone, Copy, Debug, PartialEq, Eq, Structural)]
pub enum BinOp {
    Plus,
    Minus,
}

/// Two values combined by an arithmetic operator.
pub struct BinOpValue {
    pub l: Rc<Value>,
    pub r: Rc<Value>,
    pub op: BinOp,
}

/// A value of the surface syntax.
pub enum Value {
    Var(String),
    Int32(i32),
    BinOp(BinOpValue),
    Prop(Rc<Prop>),
}

/// A call: the callee, where there is one, and the arguments.
pub struct Bind {
    pub func: Option<String>,
    pub args: Vec<Value>,
    pub span: Span,
}

/// Binds the results of a call to names. Where it has a label, the label
/// names the rest of the block after the call: a jump to it hands over new
/// results and goes on from there.
pub struct Let {
    pub label: Option<String>,
    pub names: Vec<String>,
    pub bind: Bind,
}

/// Runs a block where a value is zero, and goes on after it otherwise.
pub struct IfZero {
    pub val: Value,
    pub block: Rc<Block>,
}

/// A function: its name, its signature and its body.
pub struct FuncDef {
    pub name: String,
    pub typ: NegTyp,
    pub block: Rc<Block>,
}

pub enum Stmt {
    Let(Let),
    FuncDef(FuncDef),
    IfZero(IfZero),
    Unpack(Bind),
    Pack(Bind),
}

/// Statements in order, closed by a return of values (no callee) or by a
/// jump to a label with values.
pub struct Block {
    pub steps: Vec<Stmt>,
    pub end: Bind,
}

pub enum Def {
    Func(FuncDef),
    Typ(NamedConstraint),
}

/// The definitions of a program, in order.
pub struct Module(pub Vec<Def>);

impl Block {
    /// One more than the weight of the statements of the block.
    pub open spec fn weight(self) -> nat
        decreases self,
    {
        steps_weight(self.steps@, 0) + 1
    }
}

/// The number of the statements from position `i` on, and of those in the
/// blocks inside them, each block counted once more.
pub open spec fn steps_weight(steps: Seq<Stmt>, i: int) -> nat
    decreases steps, steps.len() - i,
{
    if 0 <= i < steps.len() {
        1 + stmt_weight(steps[i]) + steps_weight(steps, i + 1)
    } else {
        0
    }
}

/// The weight of the block inside a statement, or zero where it has none.
pub open spec fn stmt_weight(s: Stmt) -> nat
    decreases s,
{
    match s {
        Stmt::FuncDef(f) => f.block.weight(),
        Stmt::IfZero(z) => z.block.weight(),
        _ => 0,
    }
}

} // verus!
