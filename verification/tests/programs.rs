use std::rc::Rc;
use structural_types::parse::desugar::Desugar;
use structural_types::parse::expr::{BinOp as Arith, BinOpValue, Bind, Block, Def, FuncDef, IfZero, Let, Module, Stmt, Value};
use structural_types::parse::types::{Constraint, Forall, NegTyp, PosTyp, Prop, PropOp};
use structural_types::refinement::oracle::{Oracle, Plain};
use structural_types::refinement::term::{BinOp, Term};
use structural_types::refinement::{ConsumeErr, ErrorKind, Session, Span, Spanned};

/// Looks for a valuation of the variables under which the facts hold and
/// the goal does not, among a fixed family of valuations, and grants what
/// it cannot refute.
struct Sampler;

struct Valuation {
    seed: u32,
    pinned: Vec<(u8, usize, i32)>,
}

impl Valuation {
    fn key(t: &Term) -> Option<(u8, usize)> {
        match t {
            Term::UVar(i, _) => Some((0, *i)),
            Term::EVar(i, _) => Some((1, *i)),
            Term::Bound(i, _) => Some((2, *i)),
            _ => None,
        }
    }

    fn get(&self, kind: u8, idx: usize) -> i32 {
        for (k, i, v) in self.pinned.iter() {
            if *k == kind && *i == idx {
                return *v;
            }
        }
        let mut h = self.seed.wrapping_mul(2654435761).wrapping_add((idx as u32).wrapping_mul(40503)).wrapping_add(kind as u32);
        h ^= h >> 13;
        h = h.wrapping_mul(2246822519);
        h ^= h >> 16;
        if self.seed % 2 == 0 {
            (h % 8) as i32
        } else {
            h as i32
        }
    }

    fn is_pinned(&self, kind: u8, idx: usize) -> bool {
        self.pinned.iter().any(|(k, i, _)| *k == kind && *i == idx)
    }

    fn eval(&self, t: &Term) -> i32 {
        match t {
            Term::Nat(v, _) => *v as i32,
            Term::Op(op, l, r) => {
                let (l, r) = (self.eval(l), self.eval(r));
                match op {
                    BinOp::Div | BinOp::Rem if r == 0 => 0,
                    _ => op.reduce(l, r),
                }
            }
            other => {
                let (kind, idx) = Valuation::key(other).unwrap();
                self.get(kind, idx)
            }
        }
    }

    fn learn(&mut self, fact: &Term) {
        if let Term::Op(BinOp::Eq, l, r) = fact {
            if let Some((k, i)) = Valuation::key(l) {
                if !self.is_pinned(k, i) {
                    let v = self.eval(r);
                    self.pinned.push((k, i, v));
                    return;
                }
            }
            if let Some((k, i)) = Valuation::key(r) {
                if !self.is_pinned(k, i) {
                    let v = self.eval(l);
                    self.pinned.push((k, i, v));
                }
            }
        }
    }
}

impl Oracle for Sampler {
    fn entails(&self, _facts: vstd::seq::Seq<Term>, _goal: Term) -> bool {
        unreachable!()
    }

    fn prove(&self, facts: &Vec<Term>, goal: &Term) -> bool {
        for seed in 0..64u32 {
            let mut val = Valuation { seed, pinned: Vec::new() };
            for fact in facts {
                val.learn(fact);
            }
            if facts.iter().all(|f| val.eval(f) != 0) && val.eval(goal) == 0 {
                return false;
            }
        }
        true
    }
}

fn at(offset: usize) -> Span {
    Span { offset, len: 1 }
}

fn var(name: &str) -> Value {
    Value::Var(name.to_string())
}

fn num(n: i32) -> Value {
    Value::Int32(n)
}

fn plus(l: Value, r: Value) -> Value {
    Value::BinOp(BinOpValue { l: Rc::new(l), r: Rc::new(r), op: Arith::Plus })
}

fn minus(l: Value, r: Value) -> Value {
    Value::BinOp(BinOpValue { l: Rc::new(l), r: Rc::new(r), op: Arith::Minus })
}

fn names(list: &[&str]) -> Vec<String> {
    list.iter().map(|n| n.to_string()).collect()
}

fn typ(bound: &[&str], parts: Vec<Spanned<Constraint>>) -> Rc<Spanned<PosTyp>> {
    Rc::new(Spanned { span: at(100), val: PosTyp { names: names(bound), parts } })
}

fn part(offset: usize, c: Constraint) -> Spanned<Constraint> {
    Spanned { span: at(offset), val: c }
}

fn byte(offset: usize, bound: Option<&str>, ptr: Value) -> Spanned<Constraint> {
    let call = Bind { func: Some("@byte".to_string()), args: vec![ptr], span: at(offset) };
    part(offset, Constraint::Builtin(bound.map(|b| b.to_string()), call))
}

fn claim(offset: usize, l: Value, op: PropOp, r: Value) -> Spanned<Constraint> {
    part(offset, Constraint::Assert(Prop { l, r, op }))
}

fn four_bytes(offset: usize) -> Spanned<Constraint> {
    let cond = Prop { l: minus(var("i"), var("ptr")), r: num(4), op: PropOp::Less };
    part(offset, Constraint::Forall(Forall { named: "@byte".to_string(), names: names(&["i"]), cond: Rc::new(cond) }))
}

fn call(offset: usize, bound: &[&str], func: &str, args: Vec<Value>) -> Stmt {
    Stmt::Let(Let { label: None, names: names(bound), bind: Bind { func: Some(func.to_string()), args, span: at(offset) } })
}

fn ret(offset: usize, args: Vec<Value>) -> Bind {
    Bind { func: None, args, span: at(offset) }
}

fn jump(offset: usize, label: &str, args: Vec<Value>) -> Bind {
    Bind { func: Some(label.to_string()), args, span: at(offset) }
}

fn func(name: &str, args: Rc<Spanned<PosTyp>>, ret: Rc<Spanned<PosTyp>>, steps: Vec<Stmt>, end: Bind) -> Def {
    Def::Func(FuncDef { name: name.to_string(), typ: NegTyp { args, ret }, block: Rc::new(Block { steps, end }) })
}

fn check<O: Oracle>(oracle: O, m: &Module) -> Vec<Result<(), ConsumeErr>> {
    let (weak, table) = Desugar::names(m);
    let sess = Session::new(oracle, table, 8);
    Desugar::check(m, &sess, &weak)
}

fn sum() -> Value {
    plus(plus(plus(var("b0"), var("b1")), var("b2")), var("b3"))
}

fn sum_of_four(claimed: Value) -> Module {
    let args = typ(&["ptr"], vec![four_bytes(1)]);
    let result = typ(
        &["sum", "r0", "r1", "r2", "r3"],
        vec![claim(2, var("sum"), PropOp::Eq, claimed), four_bytes(3)],
    );
    let steps = vec![
        call(10, &["b0"], "@read_u8", vec![var("ptr")]),
        call(11, &["b1"], "@read_u8", vec![plus(var("ptr"), num(1))]),
        call(12, &["b2"], "@read_u8", vec![plus(var("ptr"), num(2))]),
        call(13, &["b3"], "@read_u8", vec![plus(var("ptr"), num(3))]),
    ];
    let end = ret(14, vec![sum(), var("b0"), var("b1"), var("b2"), var("b3")]);
    Module(vec![func("sum4", args, result, steps, end)])
}

fn read_values() -> Value {
    plus(plus(plus(var("r0"), var("r1")), var("r2")), var("r3"))
}

#[test]
fn four_bytes_are_read_and_summed() {
    let m = sum_of_four(read_values());
    assert_eq!(check(Sampler, &m), vec![Ok(())]);
}

#[test]
fn a_wrong_sum_is_not_proved() {
    let m = sum_of_four(plus(read_values(), num(1)));
    let verdicts = check(Sampler, &m);
    assert_eq!(verdicts, vec![Err(ConsumeErr { kind: ErrorKind::Unprovable, span: Some(at(2)) })]);
}

#[test]
fn a_fifth_byte_is_absent() {
    let args = typ(&["ptr"], vec![four_bytes(1)]);
    let result = typ(&[], vec![four_bytes(3)]);
    let steps = vec![call(10, &["b"], "@read_u8", vec![plus(var("ptr"), num(4))])];
    let m = Module(vec![func("over", args, result, steps, ret(11, vec![]))]);
    assert_eq!(check(Sampler, &m), vec![Err(ConsumeErr { kind: ErrorKind::Absent, span: Some(at(10)) })]);
}

#[test]
fn a_byte_is_not_consumed_twice() {
    let args = typ(&["p"], vec![byte(1, None, var("p"))]);
    let result = typ(&[], vec![byte(2, None, var("p")), byte(3, None, var("p"))]);
    let m = Module(vec![func("twice", args, result, vec![], ret(4, vec![]))]);
    assert_eq!(check(Plain, &m), vec![Err(ConsumeErr { kind: ErrorKind::Absent, span: Some(at(3)) })]);
}

#[test]
fn a_byte_at_an_unrelated_address_is_absent() {
    let args = typ(&["p", "q"], vec![byte(1, None, var("p"))]);
    let result = typ(&[], vec![byte(2, None, var("p"))]);
    let steps = vec![
        call(10, &["a"], "@read_u8", vec![var("p")]),
        call(11, &["b"], "@read_u8", vec![var("q")]),
    ];
    let m = Module(vec![func("alias", args, result, steps, ret(12, vec![]))]);
    assert_eq!(check(Sampler, &m), vec![Err(ConsumeErr { kind: ErrorKind::Absent, span: Some(at(11)) })]);
}

#[test]
fn a_loop_to_its_own_label_is_a_fixed_point() {
    let args = typ(&["p"], vec![byte(1, None, var("p"))]);
    let result = typ(&[], vec![byte(2, None, var("p"))]);
    let steps = vec![call(10, &[], "@write_u8", vec![var("p"), num(7)])];
    let m = Module(vec![func("spin", args, result, steps, jump(11, "spin", vec![var("p")]))]);
    assert_eq!(check(Plain, &m), vec![Ok(())]);
}

#[test]
fn a_jump_to_a_label_that_gives_too_little_fails() {
    let idle = FuncDef {
        name: "idle".to_string(),
        typ: NegTyp { args: typ(&["x"], vec![]), ret: typ(&[], vec![]) },
        block: Rc::new(Block { steps: vec![], end: jump(20, "idle", vec![var("q")]) }),
    };
    let args = typ(&["q"], vec![]);
    let result = typ(&[], vec![byte(3, None, var("q"))]);
    let m = Module(vec![func("make", args, result, vec![Stmt::FuncDef(idle)], jump(11, "idle", vec![var("q")]))]);
    let verdicts = check(Plain, &m);
    assert_eq!(verdicts, vec![Err(ConsumeErr { kind: ErrorKind::Subtype, span: Some(at(3)) })]);
}

#[test]
fn a_resource_left_over_is_a_leak() {
    let args = typ(&["p"], vec![byte(1, None, var("p"))]);
    let result = typ(&[], vec![]);
    let m = Module(vec![func("drop", args, result, vec![], ret(4, vec![]))]);
    assert_eq!(check(Plain, &m), vec![Err(ConsumeErr { kind: ErrorKind::Leak, span: Some(at(4)) })]);
}

#[test]
fn branches_do_not_see_one_another() {
    let args = typ(&["p", "c"], vec![byte(1, None, var("p"))]);
    let result = typ(&[], vec![byte(2, None, var("p"))]);
    let zero = Rc::new(Block { steps: vec![], end: ret(20, vec![]) });
    let steps = vec![Stmt::IfZero(IfZero { val: var("c"), block: zero })];
    let m = Module(vec![func("both", args, result, steps, ret(21, vec![]))]);
    assert_eq!(check(Plain, &m), vec![Ok(())]);
}

#[test]
fn a_failing_function_does_not_stop_the_next() {
    let leak = func("drop", typ(&["p"], vec![byte(1, None, var("p"))]), typ(&[], vec![]), vec![], ret(4, vec![]));
    let fine = func("keep", typ(&["p"], vec![byte(1, None, var("p"))]), typ(&[], vec![byte(2, None, var("p"))]), vec![], ret(5, vec![]));
    let verdicts = check(Plain, &Module(vec![leak, fine]));
    assert_eq!(verdicts.len(), 2);
    assert!(verdicts[0].is_err());
    assert_eq!(verdicts[1], Ok(()));
}

#[test]
fn an_unknown_name_is_unbound() {
    let m = Module(vec![func("f", typ(&[], vec![]), typ(&["x"], vec![]), vec![], ret(4, vec![var("nobody")]))]);
    assert_eq!(check(Plain, &m), vec![Err(ConsumeErr { kind: ErrorKind::Unbound, span: Some(at(4)) })]);
}

#[test]
fn a_wrong_number_of_results_is_an_arity_error() {
    let m = Module(vec![func("f", typ(&[], vec![]), typ(&["x"], vec![]), vec![], ret(4, vec![]))]);
    let verdicts = check(Plain, &m);
    assert!(matches!(verdicts[0], Err(ConsumeErr { kind: ErrorKind::Arity, .. })));
}

#[test]
fn a_jump_to_the_label_of_a_let_goes_on_after_the_call() {
    let args = typ(&["p"], vec![byte(1, None, var("p"))]);
    let result = typ(&[], vec![byte(2, None, var("p"))]);
    let read = Stmt::Let(Let {
        label: Some("again".to_string()),
        names: names(&["v"]),
        bind: Bind { func: Some("@read_u8".to_string()), args: vec![var("p")], span: at(10) },
    });
    let m = Module(vec![func("wait", args, result, vec![read], jump(11, "again", vec![var("v")]))]);
    assert_eq!(check(Sampler, &m), vec![Ok(())]);
    let args = typ(&["p"], vec![byte(1, None, var("p"))]);
    let result = typ(&[], vec![byte(2, None, var("p"))]);
    let read = Stmt::Let(Let {
        label: Some("again".to_string()),
        names: names(&["v"]),
        bind: Bind { func: Some("@read_u8".to_string()), args: vec![var("p")], span: at(10) },
    });
    let m = Module(vec![func("wait", args, result, vec![read], jump(11, "again", vec![num(3)]))]);
    assert_eq!(check(Sampler, &m), vec![Err(ConsumeErr { kind: ErrorKind::Unprovable, span: Some(at(11)) })]);
}
