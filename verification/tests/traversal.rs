use dhall::traverse::{children, map_children, traverse_children, with_children};
use dhall::typecheck::type_with;
use dhall::{BinOp, Builtin, Const, Expr, TypecheckContext, TypedValue, V};

fn name(s: &str) -> String {
    s.to_string()
}

fn num(n: u64) -> Expr {
    Expr::NaturalLit(n)
}

fn var(s: &str) -> Expr {
    Expr::Var(V(name(s), 0))
}

fn show(e: &Expr) -> String {
    format!("{:?}", e)
}

fn shows(es: &Vec<Expr>) -> Vec<String> {
    es.iter().map(show).collect()
}

fn double(e: &Expr) -> Expr {
    match e {
        Expr::NaturalLit(n) => Expr::NaturalLit(2 * n),
        other => dhall::syntax::clone_expr(other),
    }
}

fn samples() -> Vec<Expr> {
    vec![
        Expr::Lam(name("x"), Box::new(num(1)), Box::new(num(2))),
        Expr::Pi(name("x"), Box::new(num(1)), Box::new(num(2))),
        Expr::App(Box::new(num(1)), Box::new(num(2))),
        Expr::Let(name("x"), Some(Box::new(num(1))), Box::new(num(2)), Box::new(num(3))),
        Expr::Let(name("x"), None, Box::new(num(1)), Box::new(num(2))),
        Expr::Annot(Box::new(num(1)), Box::new(num(2))),
        Expr::Assert(Box::new(num(1))),
        Expr::TextLit(vec![(name("a"), num(1)), (name("b"), num(2))], name("c")),
        Expr::BinOp(BinOp::NaturalPlus, Box::new(num(1)), Box::new(num(2))),
        Expr::BoolIf(Box::new(num(1)), Box::new(num(2)), Box::new(num(3))),
        Expr::EmptyListLit(Box::new(num(1))),
        Expr::NEListLit(Box::new(num(1)), vec![num(2), num(3)]),
        Expr::SomeLit(Box::new(num(1))),
        Expr::RecordType(vec![(name("a"), num(1)), (name("b"), num(2))]),
        Expr::RecordLit(vec![(name("a"), num(1)), (name("b"), num(2))]),
        Expr::UnionType(vec![(name("A"), Some(num(1))), (name("B"), None), (name("C"), Some(num(2)))]),
        Expr::Merge(Box::new(num(1)), Box::new(num(2)), Some(Box::new(num(3)))),
        Expr::Merge(Box::new(num(1)), Box::new(num(2)), None),
        Expr::Field(Box::new(num(1)), name("a")),
        Expr::Projection(Box::new(num(1)), vec![name("a")]),
        Expr::Const(Const::Type),
        Expr::Builtin(Builtin::Natural),
        num(5),
        var("x"),
    ]
}

#[test]
fn children_come_in_source_order() {
    let counts: Vec<usize> = samples().iter().map(|e| children(e).len()).collect();
    assert_eq!(
        counts,
        vec![2, 2, 2, 3, 2, 2, 1, 2, 2, 3, 1, 3, 1, 2, 2, 2, 3, 2, 1, 1, 0, 0, 0, 0]
    );
    for e in samples() {
        let cs = children(&e);
        let expected: Vec<Expr> = (1..=cs.len() as u64).map(num).collect();
        assert_eq!(shows(&cs), shows(&expected), "{:?}", e);
    }
}

#[test]
fn putting_the_children_back_changes_nothing() {
    for e in samples() {
        let back = with_children(&e, &children(&e)).unwrap();
        assert_eq!(show(&back), show(&e));
    }
}

#[test]
fn the_number_of_children_must_fit() {
    let e = Expr::App(Box::new(num(1)), Box::new(num(2)));
    assert!(with_children(&e, &vec![num(1)]).is_none());
    assert!(with_children(&e, &vec![num(1), num(2), num(3)]).is_none());
    assert!(with_children(&num(1), &vec![num(1)]).is_none());
    assert!(with_children(&num(1), &vec![]).is_some());
}

#[test]
fn a_function_is_applied_to_each_child() {
    let e = Expr::UnionType(vec![
        (name("A"), Some(num(1))),
        (name("B"), None),
        (name("C"), Some(num(2))),
    ]);
    let expected = Expr::UnionType(vec![
        (name("A"), Some(num(2))),
        (name("B"), None),
        (name("C"), Some(num(4))),
    ]);
    assert_eq!(show(&map_children(&e, &double)), show(&expected));
    let e = Expr::NEListLit(Box::new(num(1)), vec![num(2), var("x")]);
    let expected = Expr::NEListLit(Box::new(num(2)), vec![num(4), var("x")]);
    assert_eq!(show(&map_children(&e, &double)), show(&expected));
    // only the direct children
    let e = Expr::SomeLit(Box::new(Expr::SomeLit(Box::new(num(1)))));
    assert_eq!(show(&map_children(&e, &double)), show(&e));
    assert_eq!(show(&map_children(&num(1), &double)), show(&num(1)));
}

#[test]
fn the_first_failure_ends_the_traversal() {
    let seen = std::cell::RefCell::new(Vec::new());
    let f = |e: &Expr| -> Result<Expr, String> {
        seen.borrow_mut().push(show(e));
        match e {
            Expr::NaturalLit(n) if *n >= 2 => Err(format!("too big: {}", n)),
            other => Ok(double(other)),
        }
    };
    let e = Expr::BoolIf(Box::new(num(1)), Box::new(num(2)), Box::new(num(3)));
    assert_eq!(traverse_children(&e, &f), Err(name("too big: 2")));
    assert_ne!(num(1), num(2));
    assert_eq!(seen.borrow().len(), 2);
    let e = Expr::App(Box::new(num(0)), Box::new(num(1)));
    let r = traverse_children(&e, &f).unwrap();
    assert_eq!(show(&r), show(&Expr::App(Box::new(num(0)), Box::new(num(2)))));
}

#[test]
fn substitution_in_a_typed_value() {
    let ctx = TypecheckContext::new();
    let natural = type_with(&ctx, &Expr::Builtin(Builtin::Natural), 16).unwrap();
    let ctx = ctx.insert_type(&name("x"), &natural).unwrap();
    let x = type_with(&ctx, &var("x"), 16).unwrap();
    let one = type_with(&TypecheckContext::new(), &num(1), 16).unwrap();
    let r = x.subst_shift(&name("x"), &one).unwrap();
    assert_eq!(show(&r.to_value()), show(&num(1)));
    assert_eq!(
        show(&r.get_type().unwrap().to_value()),
        show(&Expr::Builtin(Builtin::Natural))
    );
    let shifted = x.shift(1, &name("x")).unwrap();
    assert_eq!(show(&shifted.to_value()), show(&Expr::Var(V(name("x"), 1))));
    assert!(matches!(TypedValue::from_const(Const::Kind).shift(1, &name("x")), Some(TypedValue::Const(Const::Kind))));
    let item = &ctx.0[0].1;
    let moved = item.shift(&name("x"), &name("x")).unwrap();
    match moved {
        dhall::EnvItem::Type(V(_, n), _) => assert_eq!(n, 1),
        other => panic!("{:?}", other),
    }
    let kept = item.shift(&name("y"), &name("x")).unwrap();
    match kept {
        dhall::EnvItem::Type(V(_, n), _) => assert_eq!(n, 0),
        other => panic!("{:?}", other),
    }
}
