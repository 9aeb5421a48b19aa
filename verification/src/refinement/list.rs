//! Shared immutable lists: sequences of terms and scopes of names.

use super::term::Term;
use std::rc::Rc;
use vstd::prelude::*;

verus! {

/// A value that can be copied into a value equal to it.
pub trait Dup: Sized {
    fn dup(&self) -> (r: Self)
        ensures
            r == *self,
    ;
}

impl Dup for Term {
    fn dup(&self) -> (r: Self) {
        self.clone()
    }
}

impl Dup for String {
    fn dup(&self) -> (r: Self) {
        self.clone()
    }
}

impl Dup for (u32, String) {
    fn dup(&self) -> (r: Self) {
        (self.0, self.1.clone())
    }
}

/// A sequence that can be shared without copying.
pub enum List<T> {
    Nil,
    Cons(T, Rc<List<T>>),
}

/// A shared sequence of terms.
pub type Terms = List<Term>;

impl<T> List<T> {
    /// The items in order.
    pub open spec fn seq(self) -> Seq<T>
        decreases self,
    {
        match self {
            List::Nil => Seq::empty(),
            List::Cons(t, rest) => seq![t] + rest.seq(),
        }
    }

    /// The list of the items of `s` from position `i` on.
    pub open spec fn of(s: Seq<T>, i: int) -> List<T>
        decreases s.len() - i,
    {
        if 0 <= i < s.len() {
            List::Cons(s[i], Rc::new(List::of(s, i + 1)))
        } else {
            List::Nil
        }
    }

    /// The list made of a sequence holds the items of the sequence.
    pub proof fn lemma_of_seq(s: Seq<T>, i: int)
        requires
            0 <= i <= s.len(),
        ensures
            List::of(s, i).seq() == s.subrange(i, s.len() as int),
        decreases s.len() - i,
    {
        if i < s.len() {
            List::lemma_of_seq(s, i + 1);
            assert(s.subrange(i, s.len() as int) =~= seq![s[i]] + s.subrange(i + 1, s.len() as int));
        } else {
            assert(s.subrange(i, s.len() as int) =~= Seq::<T>::empty());
        }
    }
}

impl<T: Dup> List<T> {
    fn build(v: &Vec<T>, i: usize) -> (l: List<T>)
        requires
            i <= v.len(),
        ensures
            l == List::of(v@, i as int),
        decreases v.len() - i,
    {
        if i < v.len() {
            List::Cons(v[i].dup(), Rc::new(List::build(v, i + 1)))
        } else {
            List::Nil
        }
    }

    /// The shared list that holds the items of `v`.
    pub fn from_vec(v: &Vec<T>) -> (l: Rc<List<T>>)
        ensures
            *l == List::of(v@, 0),
            l.seq() == v@,
    {
        proof {
            List::lemma_of_seq(v@, 0);
            assert(v@.subrange(0, v@.len() as int) =~= v@);
        }
        Rc::new(List::build(v, 0))
    }

    fn fill(&self, out: &mut Vec<T>)
        ensures
            final(out)@ == old(out)@ + self.seq(),
        decreases self,
    {
        match self {
            List::Nil => {
                assert(out@ + self.seq() =~= out@);
            },
            List::Cons(t, rest) => {
                out.push(t.dup());
                rest.fill(out);
                assert(final(out)@ =~= old(out)@ + self.seq());
            },
        }
    }

    /// The items in order.
    pub fn to_vec(&self) -> (v: Vec<T>)
        ensures
            v@ == self.seq(),
    {
        let mut v: Vec<T> = Vec::new();
        self.fill(&mut v);
        assert(v@ =~= self.seq());
        v
    }
}

/// What names stand for. A later binding of a name hides an earlier one.
pub enum Scope<T> {
    Empty,
    Bind(String, T, Rc<Scope<T>>),
}

impl<T> Scope<T> {
    /// What `name` stands for, if it is bound.
    pub open spec fn get(self, name: Seq<char>) -> Option<T>
        decreases self,
    {
        match self {
            Scope::Empty => None,
            Scope::Bind(n, v, rest) => if n@ == name { Some(v) } else { rest.get(name) },
        }
    }

    /// Looks a name up.
    pub fn lookup(&self, name: &String) -> (r: Option<&T>)
        ensures
            match r {
                Some(v) => self.get(name@) == Some(*v),
                None => self.get(name@) is None,
            },
        decreases self,
    {
        match self {
            Scope::Empty => None,
            Scope::Bind(n, v, rest) => if *n == *name { Some(v) } else { rest.lookup(name) },
        }
    }

    /// The scope with one more binding.
    pub fn bind(this: &Rc<Scope<T>>, name: &String, val: T) -> (r: Rc<Scope<T>>)
        ensures
            *r == Scope::Bind(*name, val, *this),
    {
        Rc::new(Scope::Bind(name.clone(), val, this.clone()))
    }
}

impl Scope<Term> {
    /// The scope that binds `names` to `vals` pairwise from position `i` on,
    /// as far as both reach.
    pub open spec fn bind_all(self, names: Seq<String>, vals: Seq<Term>, i: int) -> Scope<Term>
        decreases names.len() - i,
    {
        if 0 <= i < names.len() && i < vals.len() {
            Scope::Bind(names[i], vals[i], Rc::new(self)).bind_all(names, vals, i + 1)
        } else {
            self
        }
    }

    /// The scope that binds each of `names` from position `i` on to the
    /// family index of its position.
    pub open spec fn bind_indices(self, names: Seq<String>, i: int) -> Scope<Term>
        decreases names.len() - i,
    {
        if 0 <= i < names.len() {
            Scope::Bind(names[i], Term::Bound(i as usize, 32), Rc::new(self)).bind_indices(names, i + 1)
        } else {
            self
        }
    }

    /// Binds names to terms pairwise, as far as both reach.
    pub fn extend(this: &Rc<Scope<Term>>, names: &Vec<String>, vals: &Vec<Term>) -> (r: Rc<Scope<Term>>)
        ensures
            *r == this.bind_all(names@, vals@, 0),
    {
        let mut scope = this.clone();
        let mut i: usize = 0;
        while i < names.len() && i < vals.len()
            invariant
                scope.bind_all(names@, vals@, i as int) == this.bind_all(names@, vals@, 0),
            decreases names.len() - i,
        {
            scope = Scope::bind(&scope, &names[i], vals[i].clone());
            i += 1;
        }
        scope
    }

    /// Binds names to the family indices of their positions.
    pub fn extend_indices(this: &Rc<Scope<Term>>, names: &Vec<String>) -> (r: Rc<Scope<Term>>)
        ensures
            *r == this.bind_indices(names@, 0),
    {
        let mut scope = this.clone();
        let mut i: usize = 0;
        while i < names.len()
            invariant
                scope.bind_indices(names@, i as int) == this.bind_indices(names@, 0),
            decreases names.len() - i,
        {
            scope = Scope::bind(&scope, &names[i], Term::Bound(i, 32));
            i += 1;
        }
        scope
    }
}

} // verus!
