//! The question that the engine puts to a prover, and a prover that answers
//! it by inspection.

use super::term::{BinOp, Term};
use std::rc::Rc;
use vstd::prelude::*;

verus! {

/// Decides whether a proposition follows from a list of facts.
///
/// The engine never looks into how an answer comes about. It relies on one
/// thing only: the answer is a function of the facts and the goal. What is
/// proved of the engine beyond that names the laws it asks of the oracle
/// (`reflexive`, `grants_facts`); behind `Lawful` every oracle has them.
pub trait Oracle {
    /// The answer to the question whether `goal` follows from `facts`.
    spec fn entails(&self, facts: Seq<Term>, goal: Term) -> bool;

    /// Answers the question whether `goal` follows from `facts`.
    fn prove(&self, facts: &Vec<Term>, goal: &Term) -> (b: bool)
        ensures
            b == self.entails(facts@, *goal),
    ;
}

/// The proposition that two terms are equal.
pub open spec fn equal(l: Term, r: Term) -> Term {
    Term::Op(BinOp::Eq, Rc::new(l), Rc::new(r))
}

/// The proposition that a proposition is false.
pub open spec fn denied(phi: Term) -> Term {
    Term::Op(BinOp::Eq, Rc::new(phi), Rc::new(Term::Nat(0, phi.size())))
}

/// An oracle grants that every term equals itself.
pub open spec fn reflexive<O: Oracle>(o: &O) -> bool {
    forall|facts: Seq<Term>, t: Term| #[trigger] o.entails(facts, equal(t, t))
}

/// An oracle grants every fact that it is given.
pub open spec fn grants_facts<O: Oracle>(o: &O) -> bool {
    forall|facts: Seq<Term>, i: int| 0 <= i < facts.len() ==> #[trigger] o.entails(facts, facts[i])
}

/// An oracle that grants a goal still grants it when a fact is added.
pub open spec fn monotone<O: Oracle>(o: &O) -> bool {
    forall|facts: Seq<Term>, fact: Term, goal: Term|
        o.entails(facts, goal) ==> #[trigger] o.entails(facts.push(fact), goal)
}

/// The word that a term of width 32 evaluates to where `env` gives the word
/// of each variable, as long as every operation in it is defined.
pub open spec fn value(t: Term, env: spec_fn(Term) -> i32) -> Option<i32>
    decreases t,
{
    match t {
        Term::Nat(v, s) => Term::literal(v, s),
        Term::Op(op, l, r) => match (value(*l, env), value(*r, env)) {
            (Some(a), Some(b)) => if op.means(a, b) {
                Some(op.meaning(a, b))
            } else {
                None
            },
            _ => None,
        },
        _ => if t.size() == 32 {
            Some(env(t))
        } else {
            None
        },
    }
}

/// Whether `env` refutes that `goal` follows from `facts`: every fact
/// evaluates to a word that is not zero, and the goal evaluates to zero.
pub open spec fn refutes(env: spec_fn(Term) -> i32, facts: Seq<Term>, goal: Term) -> bool {
    &&& forall|i: int| 0 <= i < facts.len() ==> (#[trigger] value(facts[i], env) matches Some(v) && v != 0)
    &&& value(goal, env) == Some(0i32)
}

/// An oracle is sound where nothing refutes what it grants.
pub open spec fn sound<O: Oracle>(o: &O) -> bool {
    forall|env: spec_fn(Term) -> i32, facts: Seq<Term>, goal: Term|
        o.entails(facts, goal) ==> !#[trigger] refutes(env, facts, goal)
}

/// A term without variables evaluates to the same word whatever the
/// variables stand for.
pub proof fn lemma_ground_value(t: &Term, env: spec_fn(Term) -> i32)
    requires
        t.ground() is Some,
    ensures
        value(*t, env) == t.ground(),
    decreases t,
{
    match t {
        Term::Op(_, l, r) => {
            lemma_ground_value(&**l, env);
            lemma_ground_value(&**r, env);
        },
        _ => {},
    }
}

/// An oracle that decides by inspection. It grants a goal that is one of the
/// facts, a goal that compares a term with itself for equality or for order,
/// and a goal without variables whose value is not zero.
#[derive(Clone, Copy, Debug)]
pub struct Plain;

impl Plain {
    /// Whether the goal holds whatever the facts are.
    pub open spec fn evident(goal: Term) -> bool {
        ||| goal matches Term::Op(op, l, r) && (op == BinOp::Eq || op == BinOp::LessEq) && *l == *r
        ||| goal.ground() matches Some(v) && v != 0
    }

    fn is_evident(goal: &Term) -> (b: bool)
        ensures
            b == Plain::evident(*goal),
    {
        let alike = match goal {
            Term::Op(op, l, r) => (*op == BinOp::Eq || *op == BinOp::LessEq) && l.same(r),
            _ => false,
        };
        if alike {
            true
        } else {
            match goal.fold() {
                Some(v) => v != 0,
                None => false,
            }
        }
    }

    /// Nothing refutes what this oracle grants.
    pub proof fn lemma_sound(o: &Plain)
        ensures
            sound(o),
    {
        assert forall|env: spec_fn(Term) -> i32, facts: Seq<Term>, goal: Term|
            o.entails(facts, goal) implies !#[trigger] refutes(env, facts, goal) by {
            if refutes(env, facts, goal) {
                if facts.contains(goal) {
                    let i = choose|i: int| 0 <= i < facts.len() && facts[i] == goal;
                    assert(value(facts[i], env) matches Some(v) && v != 0);
                } else if goal.ground() is Some {
                    lemma_ground_value(&goal, env);
                }
            }
        }
    }

    /// The three laws hold of this oracle.
    pub proof fn lemma_lawful(o: &Plain)
        ensures
            reflexive(o),
            grants_facts(o),
            monotone(o),
    {
        assert forall|facts: Seq<Term>, fact: Term, goal: Term| o.entails(facts, goal) implies #[trigger] o.entails(
            facts.push(fact),
            goal,
        ) by {
            if facts.contains(goal) {
                let i = choose|i: int| 0 <= i < facts.len() && facts[i] == goal;
                assert(facts.push(fact)[i] == goal);
            }
        }
    }
}

impl Oracle for Plain {
    open spec fn entails(&self, facts: Seq<Term>, goal: Term) -> bool {
        facts.contains(goal) || Plain::evident(goal)
    }

    fn prove(&self, facts: &Vec<Term>, goal: &Term) -> (b: bool) {
        let mut i: usize = 0;
        while i < facts.len()
            invariant
                i <= facts.len(),
                forall|j: int| 0 <= j < i ==> facts@[j] != *goal,
            decreases facts.len() - i,
        {
            if facts[i].same(goal) {
                return true;
            }
            i += 1;
        }
        Plain::is_evident(goal)
    }
}

/// An oracle that grants what is plain to see before it asks another: a
/// goal that is one of the facts, and a goal that says that a term equals
/// itself. Whatever the other oracle is, this one grants its facts and
/// grants that a term equals itself, and it is sound where the other is.
pub struct Lawful<O: Oracle>(pub O);

impl<O: Oracle> Lawful<O> {
    /// Whether the goal says that a term equals itself.
    pub open spec fn trivial(goal: Term) -> bool {
        goal matches Term::Op(op, l, r) && (op == BinOp::Eq && *l == *r)
    }

    /// This oracle grants that a term equals itself, and grants every fact.
    pub proof fn lemma_lawful(o: &Lawful<O>)
        ensures
            reflexive(o),
            grants_facts(o),
    {
    }

    /// Nothing refutes what this oracle grants, where nothing refutes what
    /// the oracle inside grants.
    pub proof fn lemma_sound(o: &Lawful<O>)
        requires
            sound(&o.0),
        ensures
            sound(o),
    {
        assert forall|env: spec_fn(Term) -> i32, facts: Seq<Term>, goal: Term|
            o.entails(facts, goal) implies !#[trigger] refutes(env, facts, goal) by {
            if refutes(env, facts, goal) {
                if facts.contains(goal) {
                    let i = choose|i: int| 0 <= i < facts.len() && facts[i] == goal;
                    assert(value(facts[i], env) matches Some(v) && v != 0);
                } else if Lawful::<O>::trivial(goal) {
                } else {
                    assert(o.0.entails(facts, goal));
                    assert(!refutes(env, facts, goal));
                }
            }
        }
    }
}

impl<O: Oracle> Oracle for Lawful<O> {
    open spec fn entails(&self, facts: Seq<Term>, goal: Term) -> bool {
        facts.contains(goal) || Lawful::<O>::trivial(goal) || self.0.entails(facts, goal)
    }

    fn prove(&self, facts: &Vec<Term>, goal: &Term) -> (b: bool) {
        let mut i: usize = 0;
        while i < facts.len()
            invariant
                i <= facts.len(),
                forall|j: int| 0 <= j < i ==> facts@[j] != *goal,
            decreases facts.len() - i,
        {
            if facts[i].same(goal) {
                return true;
            }
            i += 1;
        }
        let alike = match goal {
            Term::Op(op, l, r) => *op == BinOp::Eq && l.same(r),
            _ => false,
        };
        alike || self.0.prove(facts, goal)
    }
}

} // verus!
