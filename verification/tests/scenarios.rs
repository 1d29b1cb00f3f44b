use dhall::equality::prop_equal;
use dhall::normalize::nf;
use dhall::{BinOp, Builtin, Const, Expr, Resolved, TypeError, TypeMessage, TypedValue, V};

fn name(s: &str) -> String {
    s.to_string()
}

fn var(s: &str) -> Expr {
    Expr::Var(V(name(s), 0))
}

fn builtin(b: Builtin) -> Expr {
    Expr::Builtin(b)
}

fn natural() -> Expr {
    builtin(Builtin::Natural)
}

fn boolean() -> Expr {
    builtin(Builtin::Bool)
}

fn num(n: u64) -> Expr {
    Expr::NaturalLit(n)
}

fn lam(x: &str, t: Expr, b: Expr) -> Expr {
    Expr::Lam(name(x), Box::new(t), Box::new(b))
}

fn pi(x: &str, t: Expr, b: Expr) -> Expr {
    Expr::Pi(name(x), Box::new(t), Box::new(b))
}

fn app(f: Expr, a: Expr) -> Expr {
    Expr::App(Box::new(f), Box::new(a))
}

fn op(o: BinOp, l: Expr, r: Expr) -> Expr {
    Expr::BinOp(o, Box::new(l), Box::new(r))
}

fn record(fs: Vec<(&str, Expr)>) -> Expr {
    Expr::RecordLit(fs.into_iter().map(|(l, e)| (name(l), e)).collect())
}

fn record_type(fs: Vec<(&str, Expr)>) -> Expr {
    Expr::RecordType(fs.into_iter().map(|(l, e)| (name(l), e)).collect())
}

fn union_type(fs: Vec<(&str, Option<Expr>)>) -> Expr {
    Expr::UnionType(fs.into_iter().map(|(l, e)| (name(l), e)).collect())
}

fn field(e: Expr, l: &str) -> Expr {
    Expr::Field(Box::new(e), name(l))
}

fn check(e: Expr) -> Result<TypedValue, TypeError> {
    Resolved(e).typecheck()
}

fn type_of(e: Expr) -> Expr {
    check(e).unwrap().get_type().unwrap().to_value()
}

fn message(e: Expr) -> TypeMessage {
    check(e).unwrap_err().type_message
}

fn same(a: &Expr, b: &Expr) -> bool {
    prop_equal(a, b, 512).unwrap()
}

fn normal(e: Expr) -> Expr {
    let tv = check(e).unwrap();
    nf(&tv.to_value(), 512).unwrap()
}

#[test]
fn identity_function_has_a_function_type() {
    let t = type_of(lam("x", natural(), var("x")));
    assert!(same(&t, &pi("x", natural(), natural())));
    match t {
        Expr::Pi(x, a, b) => {
            assert_eq!(x, "x");
            assert!(matches!(*a, Expr::Builtin(Builtin::Natural)));
            assert!(matches!(*b, Expr::Builtin(Builtin::Natural)));
        }
        other => panic!("not a function type: {:?}", other),
    }
}

#[test]
fn application_has_the_result_type_and_reduces() {
    let e = app(lam("x", natural(), var("x")), num(3));
    assert!(same(&type_of(app(lam("x", natural(), var("x")), num(3))), &natural()));
    assert!(matches!(normal(e), Expr::NaturalLit(3)));
}

#[test]
fn record_literal_has_the_record_type_of_its_fields() {
    let e = record(vec![("x", num(1)), ("y", Expr::BoolLit(true))]);
    let t = type_of(e);
    let expected = record_type(vec![("x", natural()), ("y", boolean())]);
    assert!(same(&t, &expected));
    let reordered = record_type(vec![("y", boolean()), ("x", natural())]);
    assert!(same(&t, &reordered));
    assert!(!same(&t, &record_type(vec![("x", natural())])));
}

#[test]
fn right_biased_merge_prefers_the_right_field() {
    let e = || {
        op(
            BinOp::RightBiasedRecordMerge,
            record(vec![("x", num(1))]),
            record(vec![("x", num(2)), ("y", num(3))]),
        )
    };
    let t = type_of(e());
    assert!(same(&t, &record_type(vec![("x", natural()), ("y", natural())])));
    let n = normal(e());
    assert!(same(&n, &record(vec![("x", num(2)), ("y", num(3))])));
    match n {
        Expr::RecordLit(fs) => assert_eq!(fs.len(), 2),
        other => panic!("not a record: {:?}", other),
    }
}

fn either() -> Expr {
    union_type(vec![("Left", Some(natural())), ("Right", Some(boolean()))])
}

fn handlers() -> Expr {
    record(vec![
        ("Left", lam("n", natural(), var("n"))),
        (
            "Right",
            lam(
                "b",
                boolean(),
                Expr::BoolIf(Box::new(var("b")), Box::new(num(1)), Box::new(num(0))),
            ),
        ),
    ])
}

#[test]
fn merge_applies_the_handler_of_the_alternative() {
    let e = || {
        Expr::Merge(
            Box::new(handlers()),
            Box::new(app(field(either(), "Left"), num(7))),
            None,
        )
    };
    assert!(same(&type_of(e()), &natural()));
    assert!(matches!(normal(e()), Expr::NaturalLit(7)));
    let right = Expr::Merge(
        Box::new(handlers()),
        Box::new(app(field(either(), "Right"), Expr::BoolLit(true))),
        None,
    );
    assert!(matches!(normal(right), Expr::NaturalLit(1)));
}

#[test]
fn head_of_the_empty_list_is_none() {
    let list_natural = app(builtin(Builtin::List), natural());
    let e = || {
        app(
            app(builtin(Builtin::ListHead), natural()),
            Expr::EmptyListLit(Box::new(app(builtin(Builtin::List), natural()))),
        )
    };
    let _ = list_natural;
    let t = type_of(e());
    assert!(same(&t, &app(builtin(Builtin::Optional), natural())));
    let n = normal(e());
    assert!(same(&n, &app(builtin(Builtin::OptionalNone), natural())));
}

#[test]
fn plus_on_a_bool_is_a_mismatch() {
    match message(op(BinOp::NaturalPlus, num(1), Expr::BoolLit(true))) {
        TypeMessage::BinOpTypeMismatch(BinOp::NaturalPlus, Expr::BoolLit(true)) => {}
        other => panic!("another error: {:?}", other),
    }
}

#[test]
fn free_variable_is_unbound() {
    match message(lam("x", natural(), var("y"))) {
        TypeMessage::UnboundVariable(V(y, 0)) => assert_eq!(y, "y"),
        other => panic!("another error: {:?}", other),
    }
}

#[test]
fn universes_are_stratified() {
    match check(Expr::Const(Const::Type)).unwrap().get_type() {
        Some(TypedValue::Const(Const::Kind)) => {}
        other => panic!("{:?}", other),
    }
    match check(Expr::Const(Const::Kind)).unwrap().get_type() {
        Some(TypedValue::Const(Const::Sort)) => {}
        other => panic!("{:?}", other),
    }
    assert!(matches!(message(Expr::Const(Const::Sort)), TypeMessage::Sort));
}

#[test]
fn checking_is_deterministic() {
    let e = || app(lam("x", natural(), op(BinOp::NaturalPlus, var("x"), num(1))), num(41));
    let a = check(e()).unwrap();
    let b = check(e()).unwrap();
    assert_eq!(format!("{:?}", a), format!("{:?}", b));
    assert!(matches!(normal(e()), Expr::NaturalLit(42)));
}

#[test]
fn annotation_with_the_inferred_type_changes_nothing() {
    let e = || record(vec![("x", num(1))]);
    let t = type_of(e());
    let annotated = Expr::Annot(Box::new(e()), Box::new(t));
    let t1 = type_of(e());
    let t2 = type_of(annotated);
    assert!(same(&t1, &t2));
}
