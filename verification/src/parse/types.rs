//! Types as a parser hands them over.

use super::expr::{Bind, Value};
use crate::refinement::Spanned;
use std::rc::Rc;
use vstd::prelude::*;

verus! {

/// A named resource: its name and the type that defines it.
pub struct NamedConstraint {
    pub name: String,
    pub typ: Rc<Spanned<PosTyp>>,
}

/// The names that a type binds and the obligations over them.
pub struct PosTyp {
    pub names: Vec<String>,
    pub parts: Vec<Spanned<Constraint>>,
}

/// The type of the arguments and the type of the results.
pub struct NegTyp {
    pub args: Rc<Spanned<PosTyp>>,
    pub ret: Rc<Spanned<PosTyp>>,
}

pub enum Constraint {
    /// A resource at every index where a condition holds.
    Forall(Forall),
    /// A proposition.
    Assert(Prop),
    /// A resource where a condition holds, and nothing otherwise.
    Switch(Switch),
    /// The value at an address is a function of this type.
    Func(Value, NegTyp),
    /// The byte cell `@byte` at an address, its value bound to the name, or
    /// the parts of a named resource.
    Builtin(Option<String>, Bind),
}

pub struct Forall {
    pub named: String,
    pub names: Vec<String>,
    pub cond: Rc<Prop>,
}

pub struct Switch {
    pub cond: Prop,
    pub named: String,
    pub args: Vec<Value>,
}

#[derive(Clone, Copy, Debug, PartialEq, Eq, Structural)]
pub enum PropOp {
    Less,
    LessEq,
    Eq,
    NotEq,
    And,
    MulSafe,
}

pub struct Prop {
    pub l: Value,
    pub r: Value,
    pub op: PropOp,
}

} // verus!
