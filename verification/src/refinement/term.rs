//! Symbolic machine words: sorts, operators, terms and side-effect free
//! expressions.

use std::rc::Rc;
use vstd::prelude::*;

verus! {

/// The kind of a term.
#[derive(Clone, Copy, Debug, PartialEq, Eq, Structural)]
pub enum Sort {
    Nat,
    Bool,
}

/// The operators that combine two terms.
#[derive(Clone, Copy, Debug, PartialEq, Eq, Structural)]
pub enum BinOp {
    Add,
    Sub,
    Div,
    Mul,
    Rem,
    Eq,
    Less,
    LessEq,
    NotEq,
    And,
    MulSafe,
}

/// An immutable symbolic value of a fixed bit width.
///
/// Two terms that differ in shape may still denote the same word under the
/// facts of a context; only an [`Oracle`](super::oracle::Oracle) decides that.
#[derive(Debug)]
pub enum Term {
    /// A literal and its width.
    Nat(i64, u32),
    /// A parameter: a value about which only the recorded facts are known.
    UVar(usize, u32),
    /// A placeholder for a value that is still to be determined.
    EVar(usize, u32),
    /// The index of a resource family, by position.
    Bound(usize, u32),
    /// Two terms combined by an operator.
    Op(BinOp, Rc<Term>, Rc<Term>),
}

impl Clone for Term {
    fn clone(&self) -> (r: Self)
        ensures
            r == *self,
    {
        match self {
            Term::Nat(v, s) => Term::Nat(*v, *s),
            Term::UVar(i, s) => Term::UVar(*i, *s),
            Term::EVar(i, s) => Term::EVar(*i, *s),
            Term::Bound(i, s) => Term::Bound(*i, *s),
            Term::Op(op, l, r) => Term::Op(*op, l.clone(), r.clone()),
        }
    }
}

/// The size of a number.
pub open spec fn abs(x: int) -> int {
    if x >= 0 { x } else { -x }
}

/// The quotient of two numbers, rounded towards zero.
pub open spec fn quotient(l: int, r: int) -> int {
    if (l < 0) == (r < 0) { abs(l) / abs(r) } else { -(abs(l) / abs(r)) }
}

/// The remainder of a division that rounds towards zero: it has the sign of
/// the dividend.
pub open spec fn remainder(l: int, r: int) -> int {
    if l < 0 { -(abs(l) % abs(r)) } else { abs(l) % abs(r) }
}

fn magnitude(x: i32) -> (n: u64)
    ensures
        n == abs(x as int),
        n <= 0x8000_0000,
{
    if x >= 0 { x as u64 } else { (-(x as i64)) as u64 }
}

/// The natural number that a word stands for.
pub open spec fn unsigned(x: i32) -> int {
    if x >= 0 { x as int } else { x + 0x1_0000_0000 }
}

/// The word that stands for a natural number below two to the thirty-second.
pub open spec fn signed(n: int) -> i32 {
    if n < 0x8000_0000 { n as i32 } else { (n - 0x1_0000_0000) as i32 }
}

fn to_unsigned(x: i32) -> (n: u64)
    ensures
        n == unsigned(x),
        n < 0x1_0000_0000,
{
    if x >= 0 { x as u64 } else { (x as i64 + 0x1_0000_0000) as u64 }
}

fn to_signed(n: u64) -> (x: i32)
    requires
        n < 0x1_0000_0000,
    ensures
        x == signed(n as int),
{
    if n < 0x8000_0000 { n as i32 } else { (n as i64 - 0x1_0000_0000) as i32 }
}

impl BinOp {
    /// Whether the operator yields a truth value.
    pub open spec fn is_relation(self) -> bool {
        match self {
            BinOp::Eq | BinOp::Less | BinOp::LessEq | BinOp::NotEq | BinOp::And | BinOp::MulSafe => true,
            _ => false,
        }
    }

    /// Whether evaluating the operator on two numbers is defined: a divisor
    /// is not zero, a quotient fits a word, and the check of a product is
    /// not evaluated at all.
    pub open spec fn defined(self, l: i32, r: i32) -> bool {
        match self {
            BinOp::Div | BinOp::Rem => r != 0 && !(l == i32::MIN && r == -1),
            BinOp::MulSafe => false,
            _ => true,
        }
    }

    /// The number that evaluating the operator on two numbers yields. The
    /// numbers are signed: a quotient is rounded towards zero, a remainder
    /// has the sign of the dividend, and the comparisons are those of signed
    /// numbers. Sums, differences and products wrap around; relations yield
    /// one or zero.
    pub open spec fn value(self, l: i32, r: i32) -> i32 {
        match self {
            BinOp::Add => l.wrapping_add(r),
            BinOp::Sub => l.wrapping_sub(r),
            BinOp::Div => quotient(l as int, r as int) as i32,
            BinOp::Mul => l.wrapping_mul(r),
            BinOp::Rem => remainder(l as int, r as int) as i32,
            BinOp::Eq => if l == r { 1i32 } else { 0i32 },
            BinOp::Less => if l < r { 1i32 } else { 0i32 },
            BinOp::And => l & r,
            BinOp::LessEq => if l <= r { 1i32 } else { 0i32 },
            BinOp::NotEq => if l != r { 1i32 } else { 0i32 },
            BinOp::MulSafe => 0i32,
        }
    }

    /// Whether the word that a term with this operator stands for is
    /// defined: a divisor is not zero.
    pub open spec fn means(self, l: i32, r: i32) -> bool {
        match self {
            BinOp::Div | BinOp::Rem => r != 0,
            _ => true,
        }
    }

    /// The word that a term with this operator stands for, given the words
    /// of its operands. Sums, differences and products wrap around;
    /// quotients, remainders and comparisons read the words as naturals;
    /// relations yield one or zero.
    pub open spec fn meaning(self, l: i32, r: i32) -> i32 {
        match self {
            BinOp::Add => l.wrapping_add(r),
            BinOp::Sub => l.wrapping_sub(r),
            BinOp::Div => signed(unsigned(l) / unsigned(r)),
            BinOp::Mul => l.wrapping_mul(r),
            BinOp::Rem => signed(unsigned(l) % unsigned(r)),
            BinOp::Eq => if l == r { 1i32 } else { 0i32 },
            BinOp::Less => if unsigned(l) < unsigned(r) { 1i32 } else { 0i32 },
            BinOp::And => l & r,
            BinOp::LessEq => if unsigned(l) <= unsigned(r) { 1i32 } else { 0i32 },
            BinOp::NotEq => if l != r { 1i32 } else { 0i32 },
            BinOp::MulSafe => if unsigned(l) * unsigned(r) < 0x1_0000_0000 { 1i32 } else { 0i32 },
        }
    }

    pub fn relation(&self) -> (b: bool)
        ensures
            b == self.is_relation(),
    {
        match self {
            BinOp::Eq | BinOp::Less | BinOp::LessEq | BinOp::NotEq | BinOp::And | BinOp::MulSafe => true,
            _ => false,
        }
    }

    /// Builds the term that applies the operator to `l` and `r`.
    pub fn apply(&self, l: &Term, r: &Term) -> (t: Term)
        ensures
            t == Term::Op(*self, Rc::new(*l), Rc::new(*r)),
    {
        Term::Op(*self, Rc::new(l.clone()), Rc::new(r.clone()))
    }

    /// Evaluates the operator on two signed numbers.
    pub fn eval(&self, l: i32, r: i32) -> (x: i32)
        requires
            self.defined(l, r),
        ensures
            x == self.value(l, r),
    {
        match self {
            BinOp::Add => l.wrapping_add(r),
            BinOp::Sub => l.wrapping_sub(r),
            BinOp::Div => {
                let q = magnitude(l) / magnitude(r);
                if (l < 0) == (r < 0) {
                    q as i32
                } else {
                    (-(q as i64)) as i32
                }
            },
            BinOp::Mul => l.wrapping_mul(r),
            BinOp::Rem => {
                let m = magnitude(l) % magnitude(r);
                if l < 0 {
                    (-(m as i64)) as i32
                } else {
                    m as i32
                }
            },
            BinOp::Eq => if l == r { 1 } else { 0 },
            BinOp::Less => if l < r { 1 } else { 0 },
            BinOp::And => l & r,
            BinOp::LessEq => if l <= r { 1 } else { 0 },
            BinOp::NotEq => if l != r { 1 } else { 0 },
            BinOp::MulSafe => 0,
        }
    }

    /// The word that a term with this operator stands for, given the words
    /// of its operands.
    pub fn reduce(&self, l: i32, r: i32) -> (x: i32)
        requires
            self.means(l, r),
        ensures
            x == self.meaning(l, r),
    {
        match self {
            BinOp::Add => l.wrapping_add(r),
            BinOp::Sub => l.wrapping_sub(r),
            BinOp::Div => to_signed(to_unsigned(l) / to_unsigned(r)),
            BinOp::Mul => l.wrapping_mul(r),
            BinOp::Rem => to_signed(to_unsigned(l) % to_unsigned(r)),
            BinOp::Eq => if l == r { 1 } else { 0 },
            BinOp::Less => if to_unsigned(l) < to_unsigned(r) { 1 } else { 0 },
            BinOp::And => l & r,
            BinOp::LessEq => if to_unsigned(l) <= to_unsigned(r) { 1 } else { 0 },
            BinOp::NotEq => if l != r { 1 } else { 0 },
            BinOp::MulSafe => {
                let (a, b): (u64, u64) = (to_unsigned(l), to_unsigned(r));
                assert(a * b <= 0xffff_ffff * 0xffff_ffff) by (nonlinear_arith)
                    requires
                        a <= 0xffff_ffff,
                        b <= 0xffff_ffff,
                ;
                if a * b < 0x1_0000_0000 { 1 } else { 0 }
            },
        }
    }
}

impl Term {
    /// The bit width of the term; that of an operation is the width of its
    /// left operand.
    pub open spec fn size(self) -> u32
        decreases self,
    {
        match self {
            Term::Nat(_, s) => s,
            Term::UVar(_, s) => s,
            Term::EVar(_, s) => s,
            Term::Bound(_, s) => s,
            Term::Op(_, l, _) => l.size(),
        }
    }

    /// Whether the term is one minus a term: the form in which the negation
    /// of a truth value is written.
    pub open spec fn is_negation(self) -> bool {
        match self {
            Term::Op(op, l, _) => op == BinOp::Sub && (*l matches Term::Nat(v, _) && v == 1),
            _ => false,
        }
    }

    /// The sort of the term: a relation is a truth value, and so is the
    /// negation of a truth value; all else is a number.
    pub open spec fn sort(self) -> Sort
        decreases self,
    {
        match self {
            Term::Op(op, _, r) => if op.is_relation() {
                Sort::Bool
            } else if self.is_negation() {
                r.sort()
            } else {
                Sort::Nat
            },
            _ => Sort::Nat,
        }
    }

    /// The term with each family index replaced by the argument at its
    /// position; an index without an argument stays.
    pub open spec fn subst(self, args: Seq<Term>) -> Term
        decreases self,
    {
        match self {
            Term::Bound(i, _) => if i < args.len() { args[i as int] } else { self },
            Term::Op(op, l, r) => Term::Op(op, Rc::new(l.subst(args)), Rc::new(r.subst(args))),
            _ => self,
        }
    }

    /// The word that a literal of width 32 stands for, if it is one.
    pub open spec fn literal(val: i64, size: u32) -> Option<i32> {
        if size != 32 {
            None
        } else if i32::MIN <= val <= i32::MAX {
            Some(val as i32)
        } else if 0 <= val < 0x1_0000_0000 {
            Some(signed(val as int))
        } else {
            None
        }
    }

    /// The word that a term without variables evaluates to, where every
    /// operation in it is defined.
    pub open spec fn ground(self) -> Option<i32>
        decreases self,
    {
        match self {
            Term::Nat(v, s) => Term::literal(v, s),
            Term::Op(op, l, r) => match (l.ground(), r.ground()) {
                (Some(a), Some(b)) => if op.means(a, b) { Some(op.meaning(a, b)) } else { None },
                _ => None,
            },
            _ => None,
        }
    }

    /// A literal of the given width.
    pub fn lit(val: i64, size: u32) -> (t: Term)
        ensures
            t == Term::Nat(val, size),
    {
        Term::Nat(val, size)
    }

    pub fn get_size(&self) -> (s: u32)
        ensures
            s == self.size(),
        decreases self,
    {
        match self {
            Term::Nat(_, s) => *s,
            Term::UVar(_, s) => *s,
            Term::EVar(_, s) => *s,
            Term::Bound(_, s) => *s,
            Term::Op(_, l, _) => l.get_size(),
        }
    }

    pub fn get_sort(&self) -> (s: Sort)
        ensures
            s == self.sort(),
        decreases self,
    {
        match self {
            Term::Op(op, l, r) => {
                if op.relation() {
                    Sort::Bool
                } else {
                    let one = match &**l {
                        Term::Nat(v, _) => *v == 1,
                        _ => false,
                    };
                    if *op == BinOp::Sub && one {
                        r.get_sort()
                    } else {
                        Sort::Nat
                    }
                }
            },
            _ => Sort::Nat,
        }
    }

    /// Whether the term is, as written, the literal zero.
    pub fn is_zero(&self) -> (b: bool)
        ensures
            b == (self matches Term::Nat(v, _) && v == 0),
    {
        match self {
            Term::Nat(v, _) => *v == 0,
            _ => false,
        }
    }

    /// The proposition that the term equals `other`.
    pub fn eq(&self, other: &Term) -> (t: Term)
        ensures
            t == Term::Op(BinOp::Eq, Rc::new(*self), Rc::new(*other)),
    {
        BinOp::Eq.apply(self, other)
    }

    /// The proposition that the term is at most `other`.
    pub fn ule(&self, other: &Term) -> (t: Term)
        ensures
            t == Term::Op(BinOp::LessEq, Rc::new(*self), Rc::new(*other)),
    {
        BinOp::LessEq.apply(self, other)
    }

    /// The proposition that the term is not zero.
    pub fn not_zero(&self) -> (t: Term)
        ensures
            t == Term::Op(BinOp::NotEq, Rc::new(*self), Rc::new(Term::Nat(0, self.size()))),
    {
        BinOp::NotEq.apply(self, &Term::Nat(0, self.get_size()))
    }

    /// Whether two terms are written alike.
    pub fn same(&self, other: &Term) -> (b: bool)
        ensures
            b == (*self == *other),
        decreases self,
    {
        match (self, other) {
            (Term::Nat(a, s), Term::Nat(b, t)) => *a == *b && *s == *t,
            (Term::UVar(a, s), Term::UVar(b, t)) => *a == *b && *s == *t,
            (Term::EVar(a, s), Term::EVar(b, t)) => *a == *b && *s == *t,
            (Term::Bound(a, s), Term::Bound(b, t)) => *a == *b && *s == *t,
            (Term::Op(o, l, r), Term::Op(p, m, q)) => *o == *p && l.same(m) && r.same(q),
            _ => false,
        }
    }

    /// Replaces each family index by the argument at its position.
    pub fn inst(&self, args: &Vec<Term>) -> (t: Term)
        ensures
            t == self.subst(args@),
        decreases self,
    {
        match self {
            Term::Bound(i, _) => if *i < args.len() { args[*i].clone() } else { self.clone() },
            Term::Op(op, l, r) => Term::Op(*op, Rc::new(l.inst(args)), Rc::new(r.inst(args))),
            _ => self.clone(),
        }
    }

    /// Evaluates a term without variables.
    pub fn fold(&self) -> (x: Option<i32>)
        ensures
            x == self.ground(),
        decreases self,
    {
        match self {
            Term::Nat(v, s) => {
                if *s != 32 {
                    None
                } else if -0x8000_0000 <= *v && *v <= 0x7fff_ffff {
                    Some(*v as i32)
                } else if 0 <= *v && *v < 0x1_0000_0000 {
                    Some(to_signed(*v as u64))
                } else {
                    None
                }
            },
            Term::Op(op, l, r) => match (l.fold(), r.fold()) {
                (Some(a), Some(b)) => match op {
                    BinOp::Div | BinOp::Rem => if b != 0 { Some(op.reduce(a, b)) } else { None },
                    _ => Some(op.reduce(a, b)),
                },
                _ => None,
            },
            _ => None,
        }
    }
}

/// An expression without side effects over variables of type `T`.
pub enum Free<T> {
    BinOp { l: Rc<Free<T>>, r: Rc<Free<T>>, op: BinOp },
    Just(i64, u32),
    Var(T),
}

impl BinOp {
    /// The expression that applies the operator to `l` and `r`.
    pub fn free<T>(self, l: Free<T>, r: Free<T>) -> (f: Free<T>)
        ensures
            f == (Free::BinOp { l: Rc::new(l), r: Rc::new(r), op: self }),
    {
        Free::BinOp { l: Rc::new(l), r: Rc::new(r), op: self }
    }
}

impl<T> Free<T> {
    /// The negation of a truth value: one minus the expression.
    pub fn bool_not(self) -> (f: Self)
        ensures
            f == (Free::BinOp { l: Rc::new(Free::Just(1, 32)), r: Rc::new(self), op: BinOp::Sub }),
    {
        BinOp::Sub.free(Free::Just(1, 32), self)
    }
}

impl Free<Term> {
    /// The term that the expression denotes.
    pub open spec fn term(self) -> Term
        decreases self,
    {
        match self {
            Free::BinOp { l, r, op } => Term::Op(op, Rc::new(l.term()), Rc::new(r.term())),
            Free::Just(val, size) => Term::Nat(val, size),
            Free::Var(t) => t,
        }
    }

    /// Builds the term that the expression denotes, with no check of its
    /// operations.
    pub fn make_term(&self) -> (t: Term)
        ensures
            t == self.term(),
        decreases self,
    {
        match self {
            Free::BinOp { l, r, op } => op.apply(&l.make_term(), &r.make_term()),
            Free::Just(val, size) => Term::lit(*val, *size),
            Free::Var(term) => term.clone(),
        }
    }
}

} // verus!
