use std::rc::Rc;
use structural_types::parse::desugar::{check_module, Desugar};
use structural_types::parse::expr::{BinOp as Arith, BinOpValue, Bind, Block, Def, FuncDef, IfZero, Let, Module, Stmt, Value};
use structural_types::parse::types::{NamedConstraint, Switch};
use structural_types::parse::types::{Constraint, Forall, NegTyp, PosTyp, Prop, PropOp};
use structural_types::refinement::oracle::{Oracle, Plain};
use structural_types::refinement::heap::{Cell, Heap, SubContext};
use structural_types::refinement::term::{BinOp, Free, Term};
use structural_types::refinement::{ConsumeErr, ErrorKind, Session, Span, Spanned};

/// Looks for a valuation of the variables under which the facts hold and
/// the goal does not, among a fixed family of valuations, and grants what
/// it cannot refute.
struct Sampler;

struct Valuation {
    seed: u32,
    pinned: Vec<(u8, usize, i32)>,
}

impl Valuation {
    fn key(t: &Term) -> Option<(u8, usize)> {
        match t {
            Term::UVar(i, _) => Some((0, *i)),
            Term::EVar(i, _) => Some((1, *i)),
            Term::Bound(i, _) => Some((2, *i)),
            _ => None,
        }
    }

    fn get(&self, kind: u8, idx: usize) -> i32 {
        for (k, i, v) in self.pinned.iter() {
            if *k == kind && *i == idx {
                return *v;
            }
        }
        let mut h = self.seed.wrapping_mul(2654435761).wrapping_add((idx as u32).wrapping_mul(40503)).wrapping_add(kind as u32);
        h ^= h >> 13;
        h = h.wrapping_mul(2246822519);
        h ^= h >> 16;
        if self.seed % 2 == 0 {
            (h % 8) as i32
        } else {
            h as i32
        }
    }

    fn is_pinned(&self, kind: u8, idx: usize) -> bool {
        self.pinned.iter().any(|(k, i, _)| *k == kind && *i == idx)
    }

    fn eval(&self, t: &Term) -> i32 {
        match t {
            Term::Nat(v, _) => *v as i32,
            Term::Op(op, l, r) => {
                let (l, r) = (self.eval(l), self.eval(r));
                match op {
                    BinOp::Div | BinOp::Rem if r == 0 => 0,
                    _ => op.reduce(l, r),
                }
            }
            other => {
                let (kind, idx) = Valuation::key(other).unwrap();
                self.get(kind, idx)
            }
        }
    }

    fn learn(&mut self, fact: &Term) {
        if let Term::Op(BinOp::Eq, l, r) = fact {
            if let Some((k, i)) = Valuation::key(l) {
                if !self.is_pinned(k, i) {
                    let v = self.eval(r);
                    self.pinned.push((k, i, v));
                    return;
                }
            }
            if let Some((k, i)) = Valuation::key(r) {
                if !self.is_pinned(k, i) {
                    let v = self.eval(l);
                    self.pinned.push((k, i, v));
                }
            }
        }
    }
}

impl Oracle for Sampler {
    fn entails(&self, _facts: vstd::seq::Seq<Term>, _goal: Term) -> bool {
        unreachable!()
    }

    fn prove(&self, facts: &Vec<Term>, goal: &Term) -> bool {
        for seed in 0..64u32 {
            let mut val = Valuation { seed, pinned: Vec::new() };
            for fact in facts {
                val.learn(fact);
            }
            if facts.iter().all(|f| val.eval(f) != 0) && val.eval(goal) == 0 {
                return false;
            }
        }
        true
    }
}

fn at(offset: usize) -> Span {
    Span { offset, len: 1 }
}

fn var(name: &str) -> Value {
    Value::Var(name.to_string())
}

fn num(n: i32) -> Value {
    Value::Int32(n)
}

fn plus(l: Value, r: Value) -> Value {
    Value::BinOp(BinOpValue { l: Rc::new(l), r: Rc::new(r), op: Arith::Plus })
}

fn minus(l: Value, r: Value) -> Value {
    Value::BinOp(BinOpValue { l: Rc::new(l), r: Rc::new(r), op: Arith::Minus })
}

fn names(list: &[&str]) -> Vec<String> {
    list.iter().map(|n| n.to_string()).collect()
}

fn typ(bound: &[&str], parts: Vec<Spanned<Constraint>>) -> Rc<Spanned<PosTyp>> {
    Rc::new(Spanned { span: at(100), val: PosTyp { names: names(bound), parts } })
}

fn part(offset: usize, c: Constraint) -> Spanned<Constraint> {
    Spanned { span: at(offset), val: c }
}

fn byte(offset: usize, bound: Option<&str>, ptr: Value) -> Spanned<Constraint> {
    let call = Bind { func: Some("@byte".to_string()), args: vec![ptr], span: at(offset) };
    part(offset, Constraint::Builtin(bound.map(|b| b.to_string()), call))
}

fn claim(offset: usize, l: Value, op: PropOp, r: Value) -> Spanned<Constraint> {
    part(offset, Constraint::Assert(Prop { l, r, op }))
}

fn packed(offset: usize, named: &str, index: &str, at: Value) -> Spanned<Constraint> {
    let cond = Prop { l: var(index), r: at, op: PropOp::Eq };
    part(offset, Constraint::Forall(Forall { named: named.to_string(), names: names(&[index]), cond: Rc::new(cond) }))
}

fn parts_of(offset: usize, named: &str, args: Vec<Value>) -> Spanned<Constraint> {
    let call = Bind { func: Some(named.to_string()), args, span: at(offset) };
    part(offset, Constraint::Builtin(None, call))
}

fn when(offset: usize, cond: Prop, named: &str, args: Vec<Value>) -> Spanned<Constraint> {
    part(offset, Constraint::Switch(Switch { cond, named: named.to_string(), args }))
}

fn named(name: &str, body: Rc<Spanned<PosTyp>>) -> Def {
    Def::Typ(NamedConstraint { name: name.to_string(), typ: body })
}

fn pair() -> Def {
    named("pair", typ(&["p"], vec![byte(50, None, var("p")), byte(51, None, plus(var("p"), num(1)))]))
}

fn two_bytes(offset: usize) -> Vec<Spanned<Constraint>> {
    vec![byte(offset, None, var("p")), byte(offset + 1, None, plus(var("p"), num(1)))]
}

fn call(offset: usize, bound: &[&str], func: &str, args: Vec<Value>) -> Stmt {
    Stmt::Let(Let { label: None, names: names(bound), bind: Bind { func: Some(func.to_string()), args, span: at(offset) } })
}

fn ret(offset: usize, args: Vec<Value>) -> Bind {
    Bind { func: None, args, span: at(offset) }
}

fn jump(offset: usize, label: &str, args: Vec<Value>) -> Bind {
    Bind { func: Some(label.to_string()), args, span: at(offset) }
}

fn func(name: &str, args: Rc<Spanned<PosTyp>>, ret: Rc<Spanned<PosTyp>>, steps: Vec<Stmt>, end: Bind) -> Def {
    Def::Func(FuncDef { name: name.to_string(), typ: NegTyp { args, ret }, block: Rc::new(Block { steps, end }) })
}

fn check<O: Oracle>(oracle: O, m: &Module) -> Vec<Result<(), ConsumeErr>> {
    let (weak, table) = Desugar::names(m);
    let sess = Session::new(oracle, table, 8);
    Desugar::check(m, &sess, &weak)
}


#[test]
fn a_named_resource_stands_for_its_parts() {
    let args = typ(&["p"], vec![parts_of(1, "pair", vec![var("p")])]);
    let result = typ(&[], two_bytes(2));
    let m = Module(vec![pair(), func("open", args, result, vec![], ret(4, vec![]))]);
    assert_eq!(check(Plain, &m), vec![Ok(())]);
}

#[test]
fn a_name_may_be_used_before_it_is_defined() {
    let args = typ(&["p"], vec![parts_of(1, "pair", vec![var("p")])]);
    let result = typ(&[], two_bytes(2));
    let m = Module(vec![func("open", args, result, vec![], ret(4, vec![])), pair()]);
    assert_eq!(check(Plain, &m), vec![Ok(())]);
}

#[test]
fn a_definition_may_mention_itself() {
    let zero = Prop { l: var("n"), r: num(0), op: PropOp::NotEq };
    let rest = vec![var("p"), minus(var("n"), num(1))];
    let run = named("run", typ(&["p", "n"], vec![when(60, zero, "run", rest)]));
    let (weak, table) = Desugar::names(&Module(vec![run]));
    assert_eq!(table.len(), 1);
    assert_eq!(table[0].id, 0);
    assert_eq!(table[0].typ.count(), 2);
    assert_eq!(weak.0.lookup(&"run".to_string()), Some(&0));
    assert_eq!(weak.0.lookup(&"walk".to_string()), None);
}

#[test]
fn unfolding_without_end_runs_into_the_limit() {
    let forever = named("forever", typ(&["p"], vec![parts_of(60, "forever", vec![var("p")])]));
    let args = typ(&["p"], vec![parts_of(1, "forever", vec![var("p")])]);
    let m = Module(vec![forever, func("spin", args, typ(&[], vec![]), vec![], ret(4, vec![]))]);
    let verdicts = check(Plain, &m);
    assert_eq!(verdicts, vec![Err(ConsumeErr { kind: ErrorKind::Limit, span: Some(at(60)) })]);
}

#[test]
fn an_unknown_resource_is_unbound() {
    let args = typ(&["p"], vec![parts_of(1, "nothing", vec![var("p")])]);
    let m = Module(vec![func("f", args, typ(&[], vec![]), vec![], ret(4, vec![]))]);
    assert_eq!(check(Plain, &m), vec![Err(ConsumeErr { kind: ErrorKind::Unbound, span: Some(at(1)) })]);
}

#[test]
fn packing_turns_the_parts_into_the_resource() {
    let args = typ(&["p"], two_bytes(1));
    let result = typ(&[], vec![packed(3, "pair", "q", var("p"))]);
    let steps = vec![Stmt::Pack(Bind { func: Some("pair".to_string()), args: vec![var("p")], span: at(10) })];
    let m = Module(vec![pair(), func("close", args, result, steps, ret(4, vec![]))]);
    assert_eq!(check(Sampler, &m), vec![Ok(())]);
}

#[test]
fn packing_needs_all_the_parts() {
    let args = typ(&["p"], vec![byte(1, None, var("p"))]);
    let result = typ(&[], vec![packed(3, "pair", "q", var("p"))]);
    let steps = vec![Stmt::Pack(Bind { func: Some("pair".to_string()), args: vec![var("p")], span: at(10) })];
    let m = Module(vec![pair(), func("close", args, result, steps, ret(4, vec![]))]);
    assert_eq!(check(Sampler, &m), vec![Err(ConsumeErr { kind: ErrorKind::Absent, span: Some(at(10)) })]);
}

#[test]
fn unpacking_turns_the_resource_into_its_parts() {
    let args = typ(&["p"], vec![packed(1, "pair", "q", var("p"))]);
    let result = typ(&[], two_bytes(2));
    let steps = vec![Stmt::Unpack(Bind { func: Some("pair".to_string()), args: vec![var("p")], span: at(10) })];
    let m = Module(vec![pair(), func("open", args, result, steps, ret(4, vec![]))]);
    assert_eq!(check(Sampler, &m), vec![Ok(())]);
}

#[test]
fn a_packed_resource_gives_no_cell_before_it_is_unpacked() {
    let args = typ(&["p"], vec![packed(1, "pair", "q", var("p"))]);
    let result = typ(&[], two_bytes(2));
    let m = Module(vec![pair(), func("open", args, result, vec![], ret(4, vec![]))]);
    assert_eq!(check(Sampler, &m), vec![Err(ConsumeErr { kind: ErrorKind::Absent, span: Some(at(2)) })]);
}

fn maybe_pair(offset: usize) -> Spanned<Constraint> {
    when(offset, Prop { l: var("c"), r: num(0), op: PropOp::NotEq }, "pair", vec![var("p")])
}

#[test]
fn a_conditional_resource_is_handed_on_undecided() {
    let args = typ(&["p", "c"], vec![maybe_pair(1)]);
    let result = typ(&[], vec![maybe_pair(2)]);
    let m = Module(vec![pair(), func("pass", args, result, vec![], ret(4, vec![]))]);
    assert_eq!(check(Plain, &m), vec![Ok(())]);
}

#[test]
fn a_conditional_resource_is_settled_by_a_branch() {
    let args = typ(&["p", "c"], vec![maybe_pair(1)]);
    let result = typ(&[], vec![maybe_pair(2)]);
    let zero = Rc::new(Block { steps: vec![], end: ret(20, vec![]) });
    let steps = vec![
        Stmt::IfZero(IfZero { val: var("c"), block: zero }),
        call(10, &["a"], "@read_u8", vec![var("p")]),
    ];
    let m = Module(vec![pair(), func("branch", args, result, steps, ret(4, vec![]))]);
    assert_eq!(check(Sampler, &m), vec![Ok(())]);
}

#[test]
fn an_undecided_conditional_resource_gives_no_cell() {
    let args = typ(&["p", "c"], vec![maybe_pair(1)]);
    let result = typ(&[], vec![maybe_pair(2)]);
    let steps = vec![call(10, &["a"], "@read_u8", vec![var("p")])];
    let m = Module(vec![pair(), func("hasty", args, result, steps, ret(4, vec![]))]);
    assert_eq!(check(Sampler, &m), vec![Err(ConsumeErr { kind: ErrorKind::Absent, span: Some(at(10)) })]);
}

fn callable(offset: usize, gives: Vec<Spanned<Constraint>>) -> Spanned<Constraint> {
    let typ = NegTyp { args: typ(&["x"], vec![byte(70, None, var("x"))]), ret: typ(&[], gives) };
    part(offset, Constraint::Func(var("f"), typ))
}

#[test]
fn a_function_value_keeps_its_type() {
    let args = typ(&["f"], vec![callable(1, vec![byte(71, None, var("x"))])]);
    let result = typ(&[], vec![callable(2, vec![byte(72, None, var("x"))])]);
    let m = Module(vec![func("same", args, result, vec![], ret(4, vec![]))]);
    assert_eq!(check(Plain, &m), vec![Ok(())]);
}

#[test]
fn a_function_value_may_promise_less() {
    let args = typ(&["f"], vec![callable(1, vec![byte(71, None, var("x"))])]);
    let result = typ(&[], vec![callable(2, vec![])]);
    let m = Module(vec![func("less", args, result, vec![], ret(4, vec![]))]);
    assert_eq!(check(Plain, &m), vec![Ok(())]);
}

#[test]
fn a_function_value_may_not_promise_more() {
    let args = typ(&["f"], vec![callable(1, vec![])]);
    let result = typ(&[], vec![callable(2, vec![byte(72, None, var("x"))])]);
    let m = Module(vec![func("more", args, result, vec![], ret(4, vec![]))]);
    assert_eq!(check(Plain, &m), vec![Err(ConsumeErr { kind: ErrorKind::Subtype, span: Some(at(72)) })]);
}

#[test]
fn an_unknown_function_value_is_absent() {
    let args = typ(&["f"], vec![]);
    let result = typ(&[], vec![callable(2, vec![])]);
    let m = Module(vec![func("none", args, result, vec![], ret(4, vec![]))]);
    assert_eq!(check(Plain, &m), vec![Err(ConsumeErr { kind: ErrorKind::Absent, span: Some(at(2)) })]);
}

#[test]
fn writing_gives_the_cell_the_value_written() {
    let args = typ(&["p"], vec![byte(1, None, var("p"))]);
    let seven = Prop { l: var("v"), r: num(7), op: PropOp::Eq };
    let result = typ(&[], vec![byte(2, Some("v"), var("p")), part(3, Constraint::Assert(seven))]);
    let steps = vec![call(10, &[], "@write_u8", vec![var("p"), num(7)])];
    let m = Module(vec![func("set", args, result, steps, ret(4, vec![]))]);
    assert_eq!(check(Sampler, &m), vec![Ok(())]);
}

#[test]
fn allocating_gives_the_bytes_of_the_pages() {
    let sess = Session::new(Plain, Vec::new(), 4);
    let mut ctx = SubContext::new();
    ctx.univ = 2;
    let pages = Term::UVar(0, 32);
    let start = Term::UVar(1, 32);
    let result = ctx.apply_neg(&sess, Heap::Consume, &sess.builtins.alloc, &vec![pages.clone()], 4).unwrap();
    assert_eq!(result.count(), 1);
    assert!(ctx.alloc.is_empty() && ctx.forall.is_empty() && ctx.facts.is_empty());
    ctx.apply_pos(&sess, Heap::Produce, &result, &vec![start.clone()], 4).unwrap();
    assert_eq!(ctx.forall.len(), 1);
    let index = Term::Bound(0, 32);
    let mask = BinOp::Less.apply(&BinOp::Sub.apply(&index, &start), &pages);
    assert!(ctx.forall[0].have.mask.body.same(&mask));
    assert_eq!(ctx.forall[0].have.mask.arity, 1);
    let grows = BinOp::Sub.apply(&Term::lit(1, 32), &BinOp::Less.apply(&BinOp::Add.apply(&start, &pages), &start));
    assert_eq!(ctx.facts.len(), 1);
    assert!(ctx.facts[0].same(&grows));
}

#[test]
fn allocation_is_no_callee_of_a_program() {
    let steps = vec![call(10, &["s"], "@alloc", vec![var("pages")])];
    let m = Module(vec![func("make", typ(&["pages"], vec![]), typ(&[], vec![]), steps, ret(4, vec![]))]);
    assert_eq!(check(Plain, &m), vec![Err(ConsumeErr { kind: ErrorKind::Unbound, span: Some(at(10)) })]);
}

#[test]
fn a_divisor_must_be_proved_not_to_be_zero() {
    let sess = Session::new(Plain, Vec::new(), 4);
    let mut ctx = SubContext::new();
    let (a, b) = (Term::UVar(0, 32), Term::UVar(1, 32));
    let quotient = BinOp::Div.free(Free::Var(a.clone()), Free::Var(b.clone()));
    assert_eq!(ctx.check_free(&sess, &quotient).err(), Some(ErrorKind::Unprovable));
    ctx.assert_prop(&sess, Heap::Produce, &b.not_zero(), 4).unwrap();
    let t = ctx.check_free(&sess, &quotient).unwrap();
    assert!(t.same(&BinOp::Div.apply(&a, &b)));
    let narrow = BinOp::Add.free(Free::Var(a), Free::Just(1, 8));
    assert_eq!(ctx.check_free(&sess, &narrow).err(), Some(ErrorKind::Sort));
}

#[test]
fn what_a_type_produces_it_can_consume() {
    let m = Module(vec![pair()]);
    let (weak, table) = Desugar::names(&m);
    let sess = Session::new(Plain, table, 8);
    let lively = Prop { l: var("a"), r: var("q"), op: PropOp::NotEq };
    let below = Prop { l: minus(var("i"), var("q")), r: num(4), op: PropOp::Less };
    let bytes = Constraint::Forall(Forall { named: "@byte".to_string(), names: names(&["i"]), cond: Rc::new(below) });
    let parts = vec![
        byte(1, Some("a"), var("q")),
        part(2, Constraint::Assert(lively)),
        byte(3, Some("b"), var("a")),
        parts_of(4, "pair", vec![var("b")]),
        part(5, bytes),
    ];
    let fun = Desugar::new(weak).convert_pos(typ(&["q"], parts));
    let at = vec![Term::UVar(0, 32)];
    let mut ctx = SubContext::new();
    ctx.univ = 1;
    ctx.apply_pos(&sess, Heap::Produce, &fun, &at, 8).unwrap();
    assert_eq!(ctx.alloc.len(), 4);
    assert_eq!(ctx.forall.len(), 1);
    assert_eq!(ctx.facts.len(), 1);
    assert!(ctx.alloc[1].ptr.same(&ctx.alloc[0].value));
    ctx.apply_pos(&sess, Heap::Consume, &fun, &at, 8).unwrap();
    assert!(ctx.alloc.is_empty());
    assert!(ctx.forall.is_empty());
    assert_eq!(ctx.facts.len(), 1);
}

#[test]
fn a_cell_held_before_can_stand_in_the_way() {
    let sess = Session::new(Plain, Vec::new(), 8);
    let parts = vec![byte(1, Some("a"), var("q")), byte(3, None, var("a"))];
    let (weak, _) = Desugar::names(&Module(vec![]));
    let fun = Desugar::new(weak).convert_pos(typ(&["q"], parts));
    let q = vec![Term::UVar(0, 32)];
    let mut ctx = SubContext::new();
    ctx.univ = 2;
    ctx.alloc.push(Cell { ptr: Term::UVar(0, 32), value: Term::UVar(1, 32) });
    ctx.apply_pos(&sess, Heap::Produce, &fun, &q, 8).unwrap();
    let r = ctx.apply_pos(&sess, Heap::Consume, &fun, &q, 8);
    assert_eq!(r, Err(ConsumeErr { kind: ErrorKind::Absent, span: Some(at(3)) }));
}

#[test]
fn a_resource_whose_name_is_set_aside_cannot_be_used() {
    let odd = named("@pair", typ(&["p"], vec![byte(50, None, var("p"))]));
    let args = typ(&["p"], vec![parts_of(1, "@pair", vec![var("p")])]);
    let m = Module(vec![odd, func("f", args, typ(&[], vec![]), vec![], ret(4, vec![]))]);
    assert_eq!(check(Plain, &m), vec![Err(ConsumeErr { kind: ErrorKind::Unbound, span: Some(at(1)) })]);
    let family = typ(&["p"], vec![packed(2, "@pair", "q", var("p"))]);
    let m = Module(vec![func("g", family, typ(&[], vec![]), vec![], ret(4, vec![]))]);
    assert_eq!(check(Plain, &m), vec![Err(ConsumeErr { kind: ErrorKind::Unbound, span: Some(at(2)) })]);
}

#[test]
fn a_program_is_checked_from_its_tree_alone() {
    let args = typ(&["p"], vec![parts_of(1, "pair", vec![var("p")])]);
    let open = func("open", args, typ(&[], two_bytes(2)), vec![], ret(4, vec![]));
    let leak = func("drop", typ(&["p"], vec![byte(1, None, var("p"))]), typ(&[], vec![]), vec![], ret(5, vec![]));
    let m = Module(vec![open, pair(), leak]);
    let (sess, weak, verdicts) = check_module(&m, Plain, 8);
    assert_eq!(sess.depth, 8);
    assert_eq!(sess.names.len(), 1);
    assert_eq!(sess.names[0].id, 0);
    assert_eq!(weak.0.lookup(&"pair".to_string()), Some(&0));
    assert_eq!(verdicts, vec![Ok(()), Err(ConsumeErr { kind: ErrorKind::Leak, span: Some(at(5)) })]);
    assert_eq!(verdicts, check(Plain, &m));
}

#[test]
fn a_name_declared_twice_stands_for_the_later_definition() {
    let first = named("pair", typ(&["p"], vec![byte(50, None, var("p"))]));
    let args = typ(&["p"], vec![parts_of(1, "pair", vec![var("p")])]);
    let open = func("open", args, typ(&[], two_bytes(2)), vec![], ret(4, vec![]));
    let (sess, weak, verdicts) = check_module(&Module(vec![first, pair(), open]), Plain, 8);
    assert_eq!(sess.names.len(), 1);
    assert_eq!(weak.0.lookup(&"pair".to_string()), Some(&0));
    assert_eq!(verdicts, vec![Ok(())]);
}

#[test]
fn what_it_held_before_is_left_where_it_cannot_be_taken_for_what_was_made() {
    let sess = Session::new(Plain, Vec::new(), 8);
    let parts = vec![byte(1, Some("a"), var("q")), byte(3, None, var("a"))];
    let (weak, _) = Desugar::names(&Module(vec![]));
    let fun = Desugar::new(weak).convert_pos(typ(&["q"], parts));
    let q = vec![Term::UVar(0, 32)];
    let mut ctx = SubContext::new();
    ctx.univ = 3;
    ctx.alloc.push(Cell { ptr: Term::UVar(1, 32), value: Term::UVar(2, 32) });
    ctx.apply_pos(&sess, Heap::Produce, &fun, &q, 8).unwrap();
    assert_eq!(ctx.alloc.len(), 3);
    ctx.apply_pos(&sess, Heap::Consume, &fun, &q, 8).unwrap();
    assert_eq!(ctx.alloc.len(), 1);
    assert!(ctx.alloc[0].ptr.same(&Term::UVar(1, 32)));
    assert!(ctx.alloc[0].value.same(&Term::UVar(2, 32)));
}

#[test]
fn an_obligation_that_is_refused_leaves_what_those_before_it_did() {
    let sess = Session::new(Plain, Vec::new(), 8);
    let (weak, _) = Desugar::names(&Module(vec![]));
    let wrong = Bind { func: Some("@byte".to_string()), args: vec![var("q"), var("q")], span: at(2) };
    let parts = vec![
        byte(1, Some("a"), var("q")),
        part(2, Constraint::Builtin(None, wrong)),
        byte(3, None, var("a")),
    ];
    let mut d = Desugar::new(weak);
    d.terms = structural_types::refinement::list::Scope::bind(&d.terms, &"q".to_string(), Term::UVar(0, 32));
    let mut ctx = SubContext::new();
    ctx.univ = 1;
    let r = d.convert_constraint(&parts, &mut ctx, Heap::Produce, &sess);
    assert_eq!(r, Err(ConsumeErr { kind: ErrorKind::Arity, span: Some(at(2)) }));
    assert_eq!(ctx.alloc.len(), 1);
    assert!(ctx.alloc[0].ptr.same(&Term::UVar(0, 32)));
    assert_eq!(ctx.univ, 2);
    for refused in [
        Constraint::Builtin(None, Bind { func: None, args: vec![], span: at(2) }),
        Constraint::Builtin(None, Bind { func: Some("@word".to_string()), args: vec![var("q")], span: at(2) }),
        Constraint::Builtin(None, Bind { func: Some("nothing".to_string()), args: vec![], span: at(2) }),
    ] {
        let mut ctx = SubContext::new();
        let parts = vec![byte(1, None, var("q")), part(2, refused), byte(3, None, var("q"))];
        let r = d.convert_constraint(&parts, &mut ctx, Heap::Produce, &sess);
        assert_eq!(r, Err(ConsumeErr { kind: ErrorKind::Unbound, span: Some(at(2)) }));
        assert_eq!(ctx.alloc.len(), 1);
    }
}

#[test]
fn conditions_and_function_values_go_round_too() {
    let m = Module(vec![pair()]);
    let (weak, table) = Desugar::names(&m);
    let sess = Session::new(Plain, table, 8);
    let always = Prop { l: num(1), r: num(0), op: PropOp::NotEq };
    let never = Prop { l: num(1), r: num(0), op: PropOp::Eq };
    let sig = NegTyp { args: typ(&["x"], vec![byte(70, None, var("x"))]), ret: typ(&[], vec![byte(71, None, var("x"))]) };
    let parts = vec![
        byte(1, Some("a"), var("q")),
        when(2, always, "pair", vec![var("a")]),
        when(3, never, "pair", vec![var("q")]),
        part(4, Constraint::Func(var("q"), sig)),
        when(5, Prop { l: var("a"), r: num(0), op: PropOp::NotEq }, "pair", vec![var("q")]),
    ];
    let fun = Desugar::new(weak).convert_pos(typ(&["q"], parts));
    let q = vec![Term::UVar(0, 32)];
    let mut ctx = SubContext::new();
    ctx.univ = 1;
    ctx.apply_pos(&sess, Heap::Produce, &fun, &q, 8).unwrap();
    assert_eq!(ctx.alloc.len(), 3);
    assert_eq!(ctx.cond.len(), 1);
    assert_eq!(ctx.funcs.len(), 1);
    ctx.apply_pos(&sess, Heap::Consume, &fun, &q, 8).unwrap();
    assert!(ctx.alloc.is_empty());
    assert!(ctx.cond.is_empty());
    assert_eq!(ctx.funcs.len(), 1);
}

#[test]
fn a_function_type_that_only_returns() {
    let sess = Session::new(Plain, Vec::new(), 4);
    let (weak, _) = Desugar::names(&Module(vec![]));
    let ret = Desugar::new(weak).convert_pos(typ(&["r"], vec![byte(1, None, var("r"))]));
    let n = structural_types::refinement::Fun {
        tau: Rc::new(structural_types::refinement::list::List::Nil),
        span: None,
        fun: structural_types::refinement::NegTyp::new(ret),
    };
    let mut ctx = SubContext::new();
    let given = ctx.apply_neg(&sess, Heap::Consume, &n, &vec![], 4).unwrap();
    assert_eq!(given.count(), 1);
    assert_eq!(given.span, Some(at(100)));
    assert!(ctx.alloc.is_empty() && ctx.facts.is_empty());
    let r = ctx.apply_neg(&sess, Heap::Consume, &n, &vec![Term::UVar(0, 32)], 4);
    assert_eq!(r.err(), Some(ConsumeErr { kind: ErrorKind::Arity, span: None }));
}
