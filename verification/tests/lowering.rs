use std::rc::Rc;
use structural_types::parse::desugar::Desugar;
use structural_types::parse::expr::{Bind, Block, FuncDef, IfZero, Let, Module, Stmt, Value};
use structural_types::parse::expr::Def;
use structural_types::parse::types::{NamedConstraint, NegTyp, PosTyp};
use structural_types::refinement::builtin::Builtin;
use structural_types::refinement::list::List;
use structural_types::refinement::term::{Free, Term};
use structural_types::refinement::{BoundExpr, ErrorKind, Expr, Fun, Lambda, NegTyp as Signature, Span, Spanned, Thunk};

fn at(offset: usize) -> Span {
    Span { offset, len: 1 }
}

fn var(name: &str) -> Value {
    Value::Var(name.to_string())
}

fn typ(offset: usize, bound: &[&str]) -> Rc<Spanned<PosTyp>> {
    let names = bound.iter().map(|n| n.to_string()).collect();
    Rc::new(Spanned { span: at(offset), val: PosTyp { names, parts: vec![] } })
}

fn bind(offset: usize, func: Option<&str>, args: Vec<Value>) -> Bind {
    Bind { func: func.map(|f| f.to_string()), args, span: at(offset) }
}

fn desugar() -> Desugar {
    let pair = Def::Typ(NamedConstraint { name: "pair".to_string(), typ: typ(90, &["p"]) });
    let (weak, _) = Desugar::names(&Module(vec![pair]));
    Desugar::new(weak)
}

fn lambda(steps: Vec<Stmt>, end: Bind, names: &[&str]) -> Lambda {
    let block = Rc::new(Block { steps, end });
    let names: Vec<String> = names.iter().map(|n| n.to_string()).collect();
    desugar().convert_lambda(0, &block, None, &names, at(80))
}

fn own() -> Fun<Signature> {
    desugar().convert_neg(&NegTyp { args: typ(60, &["r"]), ret: typ(61, &[]) })
}

fn x(i: usize) -> Term {
    Term::UVar(i, 32)
}

fn terms(inj: &Rc<List<Free<Term>>>) -> Vec<Term> {
    let mut out = Vec::new();
    let mut at: &List<Free<Term>> = inj;
    while let List::Cons(f, rest) = at {
        out.push(f.make_term());
        at = rest;
    }
    out
}

#[test]
fn a_block_without_statements_returns() {
    let l = lambda(vec![], bind(1, None, vec![var("b"), var("a")]), &["a", "b"]);
    let e = l.inst(&vec![x(0), x(1)], &own()).unwrap();
    assert_eq!(e.span, at(80));
    match e.val {
        Expr::Return(v) => {
            assert_eq!(v.span, Some(at(1)));
            let t = terms(&v.inj);
            assert_eq!(t.len(), 2);
            assert!(t[0].same(&x(1)) && t[1].same(&x(0)));
        }
        _ => panic!("the block ends in a return"),
    }
}

#[test]
fn names_and_terms_are_paired_as_far_as_both_reach() {
    let l = lambda(vec![], bind(1, None, vec![var("a")]), &["a", "b"]);
    match l.inst(&vec![x(0)], &own()).unwrap().val {
        Expr::Return(v) => assert!(terms(&v.inj)[0].same(&x(0))),
        _ => panic!("the block ends in a return"),
    }
    let l = lambda(vec![], bind(1, None, vec![var("b")]), &["a", "b"]);
    let err = l.inst(&vec![x(0)], &own()).err().unwrap();
    assert_eq!((err.kind, err.span), (ErrorKind::Unbound, Some(at(1))));
    let l = lambda(vec![], bind(1, None, vec![var("a")]), &["a"]);
    assert!(l.inst(&vec![x(0), x(1)], &own()).is_ok());
    let l = lambda(vec![], bind(1, None, vec![]), &[]);
    assert!(l.inst(&vec![x(0)], &own()).is_ok());
}

#[test]
fn a_jump_needs_a_label_in_scope() {
    let l = lambda(vec![], bind(1, Some("nowhere"), vec![]), &[]);
    let err = l.inst(&vec![], &own()).err().unwrap();
    assert_eq!(err.kind, ErrorKind::Unbound);
    assert_eq!(err.span, Some(at(1)));
}

#[test]
fn a_let_applies_a_primitive() {
    let read = Stmt::Let(Let { label: None, names: vec!["v".to_string()], bind: bind(2, Some("@read_u8"), vec![var("p")]) });
    let l = lambda(vec![read], bind(1, None, vec![var("v")]), &["p"]);
    match l.inst(&vec![x(0)], &own()).unwrap().val {
        Expr::Let(BoundExpr::App(Thunk::Builtin(b), arg), rest) => {
            assert_eq!(b, Builtin::Read);
            assert!(terms(&arg.inj)[0].same(&x(0)));
            assert_eq!(rest.index, 1);
            assert_eq!(rest.names.to_vec(), vec!["v".to_string()]);
            assert!(matches!(rest.inst(&vec![x(5)], &own()).unwrap().val, Expr::Return(_)));
        }
        _ => panic!("the statement is a call of a primitive"),
    }
    let step = Stmt::Let(Let { label: None, names: vec![], bind: bind(2, Some("@write_u8"), vec![]) });
    match lambda(vec![step], bind(1, None, vec![]), &[]).inst(&vec![], &own()).unwrap().val {
        Expr::Let(BoundExpr::App(Thunk::Builtin(b), _), _) => assert_eq!(b, Builtin::Write),
        _ => panic!("the statement is a call of a primitive"),
    }
}

#[test]
fn no_other_name_that_is_set_aside_is_a_callee() {
    for name in ["@alloc", "@byte", "@read_u16", "@"] {
        let step = Stmt::Let(Let { label: None, names: vec![], bind: bind(2, Some(name), vec![]) });
        let err = lambda(vec![step], bind(1, None, vec![]), &[]).inst(&vec![], &own()).err().unwrap();
        assert_eq!((err.kind, err.span), (ErrorKind::Unbound, Some(at(2))));
    }
    let step = Stmt::Let(Let { label: None, names: vec![], bind: bind(2, None, vec![]) });
    let err = lambda(vec![step], bind(1, None, vec![]), &[]).inst(&vec![], &own()).err().unwrap();
    assert_eq!((err.kind, err.span), (ErrorKind::Unbound, Some(at(2))));
}

#[test]
fn a_let_of_an_unknown_callee_is_unbound() {
    let call = Stmt::Let(Let { label: None, names: vec![], bind: bind(2, Some("helper"), vec![]) });
    let err = lambda(vec![call], bind(1, None, vec![]), &[]).inst(&vec![], &own()).err().unwrap();
    assert_eq!((err.kind, err.span), (ErrorKind::Unbound, Some(at(2))));
}

#[test]
fn a_function_inside_is_known_by_its_name() {
    let inner = FuncDef {
        name: "helper".to_string(),
        typ: NegTyp { args: typ(3, &["a"]), ret: typ(4, &[]) },
        block: Rc::new(Block { steps: vec![], end: bind(5, Some("helper"), vec![var("p")]) }),
    };
    let call = Stmt::Let(Let { label: None, names: vec![], bind: bind(6, Some("helper"), vec![var("p")]) });
    let l = lambda(vec![Stmt::FuncDef(inner), call], bind(1, None, vec![]), &["p"]);
    match l.inst(&vec![x(0)], &own()).unwrap().val {
        Expr::Let(BoundExpr::Cont(body, typ), rest) => {
            assert_eq!(typ.count(), 1);
            assert_eq!(typ.span, Some(at(3)));
            assert!(matches!(typ.fun, Signature::Declared { .. }));
            assert_eq!(body.index, 0);
            assert!(body.names.to_vec().is_empty());
            assert_eq!(body.label.as_ref().map(|l| l.0.as_str()), Some("helper"));
            assert_eq!(rest.label.as_ref().map(|l| l.0.as_str()), Some("helper"));
            // the body is instantiated with a term for the parameter and names none
            match body.inst(&vec![x(7)], &own()).unwrap().val {
                Expr::Loop(label, arg) => {
                    assert_eq!(label.span, Some(at(3)));
                    assert!(terms(&arg.inj)[0].same(&x(0)));
                }
                _ => panic!("the body jumps to its own label"),
            }
            match rest.inst(&vec![], &own()).unwrap().val {
                Expr::Let(BoundExpr::App(Thunk::Local(callee), arg), _) => {
                    assert_eq!(callee.span, Some(at(3)));
                    assert!(terms(&arg.inj)[0].same(&x(0)));
                }
                _ => panic!("the rest calls the function"),
            }
        }
        _ => panic!("the statement defines a function"),
    }
}

#[test]
fn a_conditional_block_is_a_match_of_two() {
    let zero = Rc::new(Block { steps: vec![], end: bind(7, None, vec![]) });
    let l = lambda(vec![Stmt::IfZero(IfZero { val: var("c"), block: zero })], bind(1, None, vec![var("c")]), &["c"]);
    match l.inst(&vec![x(3)], &own()).unwrap().val {
        Expr::Match(on, arms) => {
            assert!(on.make_term().same(&x(3)));
            let arms = arms.to_vec();
            assert_eq!(arms.len(), 2);
            match arms[0].inst(&vec![], &own()).unwrap().val {
                Expr::Return(v) => assert_eq!(v.span, Some(at(7))),
                _ => panic!("the first branch is the block"),
            }
            match arms[1].inst(&vec![], &own()).unwrap().val {
                Expr::Return(v) => assert_eq!(v.span, Some(at(1))),
                _ => panic!("the second branch is the rest"),
            }
        }
        _ => panic!("the statement is a match"),
    }
}

#[test]
fn packing_and_unpacking_name_their_resource() {
    for (unpack, step) in [
        (false, Stmt::Pack(bind(2, Some("pair"), vec![var("p")]))),
        (true, Stmt::Unpack(bind(2, Some("pair"), vec![var("p")]))),
    ] {
        match lambda(vec![step], bind(1, None, vec![]), &["p"]).inst(&vec![x(0)], &own()).unwrap().val {
            Expr::Let(BoundExpr::App(Thunk::Builtin(b), arg), _) => {
                assert_eq!(b, Builtin::Pack(0, unpack));
                assert!(terms(&arg.inj)[0].same(&x(0)));
            }
            _ => panic!("the statement applies the pack primitive"),
        }
    }
    let step = Stmt::Pack(bind(2, Some("nothing"), vec![]));
    let err = lambda(vec![step], bind(1, None, vec![]), &[]).inst(&vec![], &own()).err().unwrap();
    assert_eq!((err.kind, err.span), (ErrorKind::Unbound, Some(at(2))));
}

#[test]
fn types_keep_the_scope_they_are_written_in() {
    let d = desugar();
    let pos = d.convert_pos(typ(3, &["a", "b"]));
    assert_eq!(pos.count(), 2);
    assert_eq!(pos.tau.to_vec(), vec![(32, "a".to_string()), (32, "b".to_string())]);
    assert_eq!(pos.span, Some(at(3)));
    let neg = d.convert_neg(&NegTyp { args: typ(4, &["a"]), ret: typ(5, &["r", "s", "t"]) });
    assert_eq!(neg.count(), 1);
    assert_eq!(neg.span, Some(at(4)));
    match neg.fun {
        Signature::Declared { ret, named, .. } => {
            assert_eq!(ret.val.names.len(), 3);
            assert_eq!(named.0.lookup(&"pair".to_string()), Some(&0));
        }
        _ => panic!("a signature of the surface syntax stays as it is written"),
    }
}

#[test]
fn a_name_that_is_set_aside_is_no_label() {
    let inner = FuncDef {
        name: "@helper".to_string(),
        typ: NegTyp { args: typ(3, &[]), ret: typ(4, &[]) },
        block: Rc::new(Block { steps: vec![], end: bind(5, None, vec![]) }),
    };
    let call = Stmt::Let(Let { label: None, names: vec![], bind: bind(6, Some("@helper"), vec![]) });
    let l = lambda(vec![Stmt::FuncDef(inner), call], bind(1, None, vec![]), &[]);
    match l.inst(&vec![], &own()).unwrap().val {
        Expr::Let(BoundExpr::Cont(_, _), rest) => {
            let err = rest.inst(&vec![], &own()).err().unwrap();
            assert_eq!((err.kind, err.span), (ErrorKind::Unbound, Some(at(6))));
        }
        _ => panic!("the statement defines a function"),
    }
}

#[test]
fn the_label_of_a_let_names_the_rest_of_the_block() {
    let read = Stmt::Let(Let {
        label: Some("again".to_string()),
        names: vec!["v".to_string()],
        bind: bind(2, Some("@read_u8"), vec![var("p")]),
    });
    let l = lambda(vec![read], bind(1, Some("again"), vec![var("v")]), &["p"]);
    match l.inst(&vec![x(0)], &own()).unwrap().val {
        Expr::Let(BoundExpr::App(_, _), rest) => {
            assert_eq!(rest.label.as_ref().map(|l| (l.0.as_str(), l.1.is_none())), Some(("again", true)));
            assert_eq!(rest.names.to_vec(), vec!["v".to_string()]);
            // the label stands for the type that the rest is checked against
            match rest.inst(&vec![x(5)], &own()).unwrap().val {
                Expr::Loop(label, arg) => {
                    assert_eq!(label.span, Some(at(60)));
                    assert_eq!(label.count(), 1);
                    assert!(terms(&arg.inj)[0].same(&x(5)));
                }
                _ => panic!("the rest jumps to its own label"),
            }
        }
        _ => panic!("the statement is a call"),
    }
    // without the label there is nothing to jump to
    let plain = Stmt::Let(Let { label: None, names: vec!["v".to_string()], bind: bind(2, Some("@read_u8"), vec![var("p")]) });
    let l = lambda(vec![plain], bind(1, Some("again"), vec![var("v")]), &["p"]);
    match l.inst(&vec![x(0)], &own()).unwrap().val {
        Expr::Let(_, rest) => {
            let err = rest.inst(&vec![x(5)], &own()).err().unwrap();
            assert_eq!((err.kind, err.span), (ErrorKind::Unbound, Some(at(1))));
        }
        _ => panic!("the statement is a call"),
    }
}
