use dhall::builtins::type_of_builtin;
use dhall::equality::prop_equal;
use dhall::normalize::nf;
use dhall::typecheck::{builtin_to_type, function_check, type_of, type_with};
use dhall::typed::type_of_const;
use dhall::{
    normalize, BinOp, Builtin, Const, EnvItem, Expr, Resolved, TypeError, TypeMessage,
    TypecheckContext, TypedValue, V,
};

fn name(s: &str) -> String {
    s.to_string()
}

fn var_at(s: &str, n: u64) -> Expr {
    Expr::Var(V(name(s), n))
}

fn var(s: &str) -> Expr {
    var_at(s, 0)
}

fn builtin(b: Builtin) -> Expr {
    Expr::Builtin(b)
}

fn natural() -> Expr {
    builtin(Builtin::Natural)
}

fn boolean() -> Expr {
    builtin(Builtin::Bool)
}

fn text_type() -> Expr {
    builtin(Builtin::Text)
}

fn ty() -> Expr {
    Expr::Const(Const::Type)
}

fn kind() -> Expr {
    Expr::Const(Const::Kind)
}

fn num(n: u64) -> Expr {
    Expr::NaturalLit(n)
}

fn yes() -> Expr {
    Expr::BoolLit(true)
}

fn lam(x: &str, t: Expr, b: Expr) -> Expr {
    Expr::Lam(name(x), Box::new(t), Box::new(b))
}

fn pi(x: &str, t: Expr, b: Expr) -> Expr {
    Expr::Pi(name(x), Box::new(t), Box::new(b))
}

fn app(f: Expr, a: Expr) -> Expr {
    Expr::App(Box::new(f), Box::new(a))
}

fn apply(f: Expr, args: Vec<Expr>) -> Expr {
    args.into_iter().fold(f, app)
}

fn op(o: BinOp, l: Expr, r: Expr) -> Expr {
    Expr::BinOp(o, Box::new(l), Box::new(r))
}

fn annot(e: Expr, t: Expr) -> Expr {
    Expr::Annot(Box::new(e), Box::new(t))
}

fn if_(c: Expr, a: Expr, b: Expr) -> Expr {
    Expr::BoolIf(Box::new(c), Box::new(a), Box::new(b))
}

fn let_(x: &str, t: Option<Expr>, v: Expr, b: Expr) -> Expr {
    Expr::Let(name(x), t.map(Box::new), Box::new(v), Box::new(b))
}

fn list(items: Vec<Expr>) -> Expr {
    let mut it = items.into_iter();
    let first = it.next().unwrap();
    Expr::NEListLit(Box::new(first), it.collect())
}

fn list_of(t: Expr) -> Expr {
    app(builtin(Builtin::List), t)
}

fn optional_of(t: Expr) -> Expr {
    app(builtin(Builtin::Optional), t)
}

fn some(e: Expr) -> Expr {
    Expr::SomeLit(Box::new(e))
}

fn record(fs: Vec<(&str, Expr)>) -> Expr {
    Expr::RecordLit(fs.into_iter().map(|(l, e)| (name(l), e)).collect())
}

fn record_type(fs: Vec<(&str, Expr)>) -> Expr {
    Expr::RecordType(fs.into_iter().map(|(l, e)| (name(l), e)).collect())
}

fn union_type(fs: Vec<(&str, Option<Expr>)>) -> Expr {
    Expr::UnionType(fs.into_iter().map(|(l, e)| (name(l), e)).collect())
}

fn field(e: Expr, l: &str) -> Expr {
    Expr::Field(Box::new(e), name(l))
}

fn project(e: Expr, ls: Vec<&str>) -> Expr {
    Expr::Projection(Box::new(e), ls.into_iter().map(name).collect())
}

fn merge(h: Expr, u: Expr, t: Option<Expr>) -> Expr {
    Expr::Merge(Box::new(h), Box::new(u), t.map(Box::new))
}

fn text(s: &str) -> Expr {
    Expr::TextLit(Vec::new(), name(s))
}

fn check(e: Expr) -> Result<TypedValue, TypeError> {
    Resolved(e).typecheck()
}

fn inferred(e: Expr) -> Expr {
    check(e).unwrap().get_type().unwrap().to_value()
}

fn message(e: Expr) -> TypeMessage {
    check(e).unwrap_err().type_message
}

fn same(a: &Expr, b: &Expr) -> bool {
    prop_equal(a, b, 512).unwrap()
}

fn has_type(e: Expr, t: Expr) -> bool {
    same(&inferred(e), &t)
}

fn show(e: &Expr) -> String {
    format!("{:?}", e)
}

#[test]
fn literals_have_the_types_of_their_kinds() {
    assert!(has_type(yes(), boolean()));
    assert!(has_type(num(1), natural()));
    assert!(has_type(Expr::IntegerLit(-1), builtin(Builtin::Integer)));
    assert!(has_type(Expr::DoubleLit(1.5f64.to_bits()), builtin(Builtin::Double)));
    assert!(has_type(text("a"), text_type()));
    assert!(has_type(natural(), ty()));
    assert!(has_type(ty(), kind()));
}

#[test]
fn literal_types_are_of_universe_type() {
    let tv = check(num(1)).unwrap();
    let t = tv.get_type().unwrap();
    assert_eq!(show(&t.to_value()), show(&natural()));
    assert!(matches!(t.get_type(), Some(TypedValue::Const(Const::Type))));
    assert_eq!(show(&tv.to_value()), show(&num(1)));
}

#[test]
fn function_types_take_the_universe_of_their_result() {
    assert_eq!(function_check(Const::Type, Const::Type), Const::Type);
    assert_eq!(function_check(Const::Kind, Const::Type), Const::Type);
    assert_eq!(function_check(Const::Sort, Const::Type), Const::Type);
    assert_eq!(function_check(Const::Type, Const::Kind), Const::Kind);
    assert_eq!(function_check(Const::Kind, Const::Kind), Const::Kind);
    assert_eq!(function_check(Const::Sort, Const::Kind), Const::Sort);
    assert_eq!(function_check(Const::Type, Const::Sort), Const::Sort);
    assert_eq!(function_check(Const::Kind, Const::Sort), Const::Sort);
    assert_eq!(function_check(Const::Sort, Const::Sort), Const::Sort);
    assert!(has_type(pi("_", natural(), natural()), ty()));
    assert!(has_type(pi("_", ty(), ty()), kind()));
    assert!(has_type(pi("a", ty(), var("a")), ty()));
    assert!(has_type(pi("_", kind(), kind()), Expr::Const(Const::Sort)));
}

#[test]
fn universes_have_the_next_one_for_type() {
    assert_eq!(type_of_const(Const::Type), Some(Const::Kind));
    assert_eq!(type_of_const(Const::Kind), Some(Const::Sort));
    assert_eq!(type_of_const(Const::Sort), None);
}

#[test]
fn polymorphic_identity() {
    let id = || lam("a", ty(), lam("x", var("a"), var("x")));
    assert!(has_type(id(), pi("a", ty(), pi("x", var("a"), var("a")))));
    assert!(has_type(app(id(), natural()), pi("x", natural(), natural())));
    assert!(has_type(apply(id(), vec![natural(), num(1)]), natural()));
    let tv = check(apply(id(), vec![natural(), num(1)])).unwrap();
    assert!(matches!(normalize(&tv), Some(Expr::NaturalLit(1))));
}

#[test]
fn shadowed_variables_keep_their_types() {
    // λ(x : Natural) → λ(x : Bool) → x@1 : Natural → Bool → Natural
    let e = lam("x", natural(), lam("x", boolean(), var_at("x", 1)));
    assert!(has_type(e, pi("_", natural(), pi("_", boolean(), natural()))));
    let e = lam("x", natural(), lam("x", boolean(), var_at("x", 0)));
    assert!(has_type(e, pi("_", natural(), pi("_", boolean(), boolean()))));
    // λ(a : Type) → λ(x : a) → λ(a : Kind) → x : the type of x is the outer a
    let e = lam("a", ty(), lam("x", var("a"), lam("a", kind(), var("x"))));
    let expected = pi("a", ty(), pi("x", var("a"), pi("a", kind(), var_at("a", 1))));
    assert!(has_type(e, expected));
}

#[test]
fn let_binds_a_value() {
    let e = || let_("x", None, num(1), op(BinOp::NaturalPlus, var("x"), num(1)));
    assert!(has_type(e(), natural()));
    let tv = check(e()).unwrap();
    assert!(matches!(normalize(&tv), Some(Expr::NaturalLit(2))));
    // a type synonym is seen through
    let e = let_("T", None, natural(), annot(num(1), var("T")));
    assert!(has_type(e, natural()));
    let e = let_("x", Some(natural()), num(1), var("x"));
    assert!(has_type(e, natural()));
    let e = let_("x", Some(boolean()), num(1), var("x"));
    assert!(matches!(message(e), TypeMessage::AnnotMismatch(_, _)));
}

#[test]
fn let_under_and_over_a_function() {
    let e = let_("x", None, num(1), lam("x", boolean(), var_at("x", 1)));
    assert!(has_type(e, pi("_", boolean(), natural())));
    let e = lam("x", boolean(), let_("x", None, num(1), var_at("x", 1)));
    assert!(has_type(e, pi("_", boolean(), boolean())));
    let e = lam("y", natural(), let_("x", None, var("y"), lam("y", boolean(), var("x"))));
    let tv = check(e).unwrap();
    let expected = lam("y", natural(), lam("y", boolean(), var_at("y", 1)));
    assert_eq!(show(&tv.to_value()), show(&expected));
}

#[test]
fn builtins_have_the_types_of_the_table() {
    assert_eq!(show(&type_of_builtin(Builtin::Natural)), show(&ty()));
    assert_eq!(show(&type_of_builtin(Builtin::List)), show(&pi("_", ty(), ty())));
    assert_eq!(
        show(&type_of_builtin(Builtin::NaturalIsZero)),
        show(&pi("_", natural(), boolean()))
    );
    assert_eq!(
        show(&type_of_builtin(Builtin::NaturalSubtract)),
        show(&pi("_", natural(), pi("_", natural(), natural())))
    );
    assert_eq!(
        show(&type_of_builtin(Builtin::ListLength)),
        show(&pi("a", ty(), pi("_", list_of(var("a")), natural())))
    );
    assert_eq!(
        show(&type_of_builtin(Builtin::OptionalNone)),
        show(&pi("a", ty(), optional_of(var("a"))))
    );
    let all = [
        Builtin::Bool,
        Builtin::Natural,
        Builtin::Integer,
        Builtin::Double,
        Builtin::Text,
        Builtin::List,
        Builtin::Optional,
        Builtin::OptionalSome,
        Builtin::OptionalNone,
        Builtin::NaturalBuild,
        Builtin::NaturalFold,
        Builtin::NaturalIsZero,
        Builtin::NaturalEven,
        Builtin::NaturalOdd,
        Builtin::NaturalToInteger,
        Builtin::NaturalShow,
        Builtin::NaturalSubtract,
        Builtin::IntegerToDouble,
        Builtin::IntegerShow,
        Builtin::DoubleShow,
        Builtin::ListBuild,
        Builtin::ListFold,
        Builtin::ListLength,
        Builtin::ListHead,
        Builtin::ListLast,
        Builtin::ListIndexed,
        Builtin::ListReverse,
        Builtin::OptionalFold,
        Builtin::OptionalBuild,
        Builtin::TextShow,
    ];
    for b in all {
        let tv = builtin_to_type(b, 1024).unwrap();
        let t = tv.get_type().unwrap().to_value();
        assert_eq!(show(&t), show(&type_of_builtin(b)), "{:?}", b);
    }
    assert!(has_type(builtin(Builtin::List), pi("_", ty(), ty())));
    assert!(has_type(list_of(natural()), ty()));
}

#[test]
fn builtin_names() {
    assert_eq!(Builtin::parse("Bool"), Some(Builtin::Bool));
    assert_eq!(Builtin::parse("Natural"), Some(Builtin::Natural));
    assert_eq!(Builtin::parse("Integer"), Some(Builtin::Integer));
    assert_eq!(Builtin::parse("Double"), Some(Builtin::Double));
    assert_eq!(Builtin::parse("Text"), Some(Builtin::Text));
    assert_eq!(Builtin::parse("List"), Some(Builtin::List));
    assert_eq!(Builtin::parse("Optional"), Some(Builtin::Optional));
    assert_eq!(Builtin::parse("Some"), Some(Builtin::OptionalSome));
    assert_eq!(Builtin::parse("None"), Some(Builtin::OptionalNone));
    assert_eq!(Builtin::parse("Natural/build"), Some(Builtin::NaturalBuild));
    assert_eq!(Builtin::parse("Natural/fold"), Some(Builtin::NaturalFold));
    assert_eq!(Builtin::parse("Natural/isZero"), Some(Builtin::NaturalIsZero));
    assert_eq!(Builtin::parse("Natural/even"), Some(Builtin::NaturalEven));
    assert_eq!(Builtin::parse("Natural/odd"), Some(Builtin::NaturalOdd));
    assert_eq!(Builtin::parse("Natural/toInteger"), Some(Builtin::NaturalToInteger));
    assert_eq!(Builtin::parse("Natural/show"), Some(Builtin::NaturalShow));
    assert_eq!(Builtin::parse("Natural/subtract"), Some(Builtin::NaturalSubtract));
    assert_eq!(Builtin::parse("Integer/toDouble"), Some(Builtin::IntegerToDouble));
    assert_eq!(Builtin::parse("Integer/show"), Some(Builtin::IntegerShow));
    assert_eq!(Builtin::parse("Double/show"), Some(Builtin::DoubleShow));
    assert_eq!(Builtin::parse("List/build"), Some(Builtin::ListBuild));
    assert_eq!(Builtin::parse("List/fold"), Some(Builtin::ListFold));
    assert_eq!(Builtin::parse("List/length"), Some(Builtin::ListLength));
    assert_eq!(Builtin::parse("List/head"), Some(Builtin::ListHead));
    assert_eq!(Builtin::parse("List/last"), Some(Builtin::ListLast));
    assert_eq!(Builtin::parse("List/indexed"), Some(Builtin::ListIndexed));
    assert_eq!(Builtin::parse("List/reverse"), Some(Builtin::ListReverse));
    assert_eq!(Builtin::parse("Optional/fold"), Some(Builtin::OptionalFold));
    assert_eq!(Builtin::parse("Optional/build"), Some(Builtin::OptionalBuild));
    assert_eq!(Builtin::parse("Text/show"), Some(Builtin::TextShow));
    assert_eq!(Builtin::parse("True"), None);
    assert_eq!(Builtin::parse("natural"), None);
    assert_eq!(Builtin::parse(""), None);
    assert_eq!(Builtin::parse("List/"), None);
}

#[test]
fn applied_builtins() {
    let xs = || list(vec![num(1), num(2)]);
    assert!(has_type(apply(builtin(Builtin::ListLength), vec![natural(), xs()]), natural()));
    assert!(has_type(
        apply(builtin(Builtin::ListReverse), vec![natural(), xs()]),
        list_of(natural())
    ));
    assert!(has_type(
        apply(builtin(Builtin::NaturalSubtract), vec![num(1), num(2)]),
        natural()
    ));
    assert!(has_type(app(builtin(Builtin::NaturalShow), num(1)), text_type()));
    assert!(has_type(app(builtin(Builtin::OptionalNone), natural()), optional_of(natural())));
    assert!(has_type(
        apply(builtin(Builtin::ListIndexed), vec![natural(), xs()]),
        list_of(record_type(vec![("index", natural()), ("value", natural())]))
    ));
}

#[test]
fn lists_and_optionals() {
    assert!(has_type(list(vec![num(1), num(2)]), list_of(natural())));
    assert!(has_type(Expr::EmptyListLit(Box::new(list_of(natural()))), list_of(natural())));
    assert!(has_type(some(num(1)), optional_of(natural())));
    match message(list(vec![num(1), yes(), num(3)])) {
        TypeMessage::InvalidListElement(1, t, Expr::BoolLit(true)) => {
            assert_eq!(show(&t), show(&natural()))
        }
        other => panic!("{:?}", other),
    }
    match message(list(vec![num(1), num(2), yes()])) {
        TypeMessage::InvalidListElement(2, _, _) => {}
        other => panic!("{:?}", other),
    }
    assert!(matches!(message(list(vec![natural()])), TypeMessage::InvalidListType(_)));
    assert!(matches!(
        message(Expr::EmptyListLit(Box::new(natural()))),
        TypeMessage::InvalidListType(_)
    ));
    assert!(matches!(message(some(natural())), TypeMessage::InvalidOptionalType(_)));
}

#[test]
fn conditionals() {
    assert!(has_type(if_(yes(), num(1), num(2)), natural()));
    assert!(matches!(message(if_(num(1), num(1), num(2))), TypeMessage::InvalidPredicate(_)));
    assert!(matches!(
        message(if_(yes(), natural(), num(2))),
        TypeMessage::IfBranchMustBeTerm(true, _)
    ));
    assert!(matches!(
        message(if_(yes(), num(1), natural())),
        TypeMessage::IfBranchMustBeTerm(false, _)
    ));
    assert!(matches!(message(if_(yes(), num(1), yes())), TypeMessage::IfBranchMismatch(_, _)));
}

#[test]
fn functions_and_applications() {
    assert!(matches!(message(app(num(1), num(2))), TypeMessage::NotAFunction(_)));
    match message(app(lam("x", natural(), var("x")), yes())) {
        TypeMessage::TypeMismatch(_, expected, Expr::BoolLit(true)) => {
            assert_eq!(show(&expected), show(&natural()))
        }
        other => panic!("{:?}", other),
    }
    assert!(matches!(message(lam("x", num(1), var("x"))), TypeMessage::InvalidInputType(_)));
    assert!(matches!(message(pi("x", num(1), natural())), TypeMessage::InvalidInputType(_)));
    assert!(matches!(message(pi("x", natural(), num(1))), TypeMessage::InvalidOutputType(_)));
    assert!(matches!(message(var("x")), TypeMessage::UnboundVariable(_)));
    match message(lam("x", natural(), var_at("x", 1))) {
        TypeMessage::UnboundVariable(V(x, 1)) => assert_eq!(x, "x"),
        other => panic!("{:?}", other),
    }
}

#[test]
fn the_first_error_in_source_order_is_reported() {
    let e = app(var("f"), var("a"));
    match message(e) {
        TypeMessage::UnboundVariable(V(x, _)) => assert_eq!(x, "f"),
        other => panic!("{:?}", other),
    }
    let e = record(vec![("a", var("p")), ("b", var("q"))]);
    match message(e) {
        TypeMessage::UnboundVariable(V(x, _)) => assert_eq!(x, "p"),
        other => panic!("{:?}", other),
    }
}

#[test]
fn the_error_carries_the_context() {
    let err = check(lam("x", natural(), lam("y", boolean(), var("z")))).unwrap_err();
    let labels: Vec<String> = err.context.0.iter().map(|(l, _)| l.clone()).collect();
    assert_eq!(labels, vec![name("x"), name("y")]);
    assert!(matches!(err.context.0[0].1, EnvItem::Type(_, _)));
    let err = check(var("z")).unwrap_err();
    assert!(err.context.0.is_empty());
}

#[test]
fn annotations() {
    assert!(has_type(annot(num(1), natural()), natural()));
    match message(annot(num(1), boolean())) {
        TypeMessage::AnnotMismatch(Expr::NaturalLit(1), t) => {
            assert_eq!(show(&t), show(&boolean()))
        }
        other => panic!("{:?}", other),
    }
    // the annotation is compared after reduction
    let t = app(lam("t", ty(), var("t")), natural());
    assert!(has_type(annot(num(1), t), natural()));
    assert!(has_type(annot(kind(), Expr::Const(Const::Sort)), Expr::Const(Const::Sort)));
}

#[test]
fn checking_against_a_type() {
    assert!(Resolved(num(1)).typecheck_with(&natural()).is_ok());
    let err = Resolved(num(1)).typecheck_with(&boolean()).unwrap_err();
    assert!(matches!(err.type_message, TypeMessage::AnnotMismatch(_, _)));
    let tv = Resolved(num(1)).typecheck_with(&natural()).unwrap();
    assert_eq!(show(&tv.to_value()), show(&annot(num(1), natural())));
}

#[test]
fn taking_an_expression_on_trust() {
    let e = op(BinOp::NaturalPlus, num(1), num(2));
    let tv = Resolved(e).skip_typecheck();
    assert!(tv.get_type().is_none());
    assert!(matches!(normalize(&tv), Some(Expr::NaturalLit(3))));
    assert!(matches!(tv, TypedValue::Untyped(_)));
}

#[test]
fn record_types() {
    assert!(has_type(record_type(vec![]), ty()));
    assert!(has_type(record_type(vec![("a", natural())]), ty()));
    assert!(has_type(record_type(vec![("a", ty())]), kind()));
    assert!(has_type(record_type(vec![("a", kind())]), Expr::Const(Const::Sort)));
    match message(record_type(vec![("a", natural()), ("b", ty())])) {
        TypeMessage::InvalidFieldType(l, t) => {
            assert_eq!(l, "b");
            assert_eq!(show(&t), show(&ty()));
        }
        other => panic!("{:?}", other),
    }
    assert!(matches!(
        message(record_type(vec![("a", num(1))])),
        TypeMessage::InvalidFieldType(_, _)
    ));
    assert!(matches!(
        message(record_type(vec![("a", natural()), ("a", boolean())])),
        TypeMessage::RecordTypeDuplicateField
    ));
    assert!(has_type(record(vec![]), record_type(vec![])));
    assert!(has_type(record(vec![("t", natural())]), record_type(vec![("t", ty())])));
    assert!(matches!(
        message(record(vec![("a", num(1)), ("b", natural())])),
        TypeMessage::InvalidFieldType(_, _)
    ));
}

#[test]
fn union_types() {
    assert!(has_type(union_type(vec![]), ty()));
    assert!(has_type(union_type(vec![("A", None), ("B", None)]), ty()));
    assert!(has_type(union_type(vec![("A", Some(natural())), ("B", None)]), ty()));
    assert!(has_type(union_type(vec![("A", Some(ty()))]), kind()));
    assert!(matches!(
        message(union_type(vec![("A", Some(natural())), ("B", Some(ty()))])),
        TypeMessage::InvalidFieldType(_, _)
    ));
    assert!(matches!(
        message(union_type(vec![("A", Some(natural())), ("A", None)])),
        TypeMessage::UnionTypeDuplicateField
    ));
    assert!(matches!(
        message(union_type(vec![("A", None), ("A", None)])),
        TypeMessage::UnionTypeDuplicateField
    ));
}

#[test]
fn field_access() {
    let r = || record(vec![("a", num(1)), ("b", yes())]);
    assert!(has_type(field(r(), "a"), natural()));
    assert!(has_type(field(r(), "b"), boolean()));
    match message(field(r(), "c")) {
        TypeMessage::MissingRecordField(l, _) => assert_eq!(l, "c"),
        other => panic!("{:?}", other),
    }
    match message(field(num(1), "a")) {
        TypeMessage::NotARecord(l, Expr::NaturalLit(1)) => assert_eq!(l, "a"),
        other => panic!("{:?}", other),
    }
    let u = || union_type(vec![("A", Some(natural())), ("B", None)]);
    assert!(has_type(field(u(), "A"), pi("_", natural(), u())));
    assert!(has_type(field(u(), "B"), u()));
    assert!(has_type(app(field(u(), "A"), num(1)), u()));
    match message(field(u(), "C")) {
        TypeMessage::MissingUnionField(l, _) => assert_eq!(l, "C"),
        other => panic!("{:?}", other),
    }
}

#[test]
fn projection() {
    let r = || record(vec![("a", num(1)), ("b", yes()), ("c", text("x"))]);
    assert!(has_type(
        project(r(), vec!["a", "c"]),
        record_type(vec![("a", natural()), ("c", text_type())])
    ));
    assert!(has_type(project(r(), vec![]), record_type(vec![])));
    assert!(matches!(message(project(r(), vec!["z"])), TypeMessage::ProjectionMissingEntry));
    assert!(matches!(message(project(num(1), vec!["a"])), TypeMessage::ProjectionMustBeRecord));
}

#[test]
fn operators() {
    assert!(has_type(op(BinOp::BoolAnd, yes(), yes()), boolean()));
    assert!(has_type(op(BinOp::BoolOr, yes(), yes()), boolean()));
    assert!(has_type(op(BinOp::BoolEQ, yes(), yes()), boolean()));
    assert!(has_type(op(BinOp::BoolNE, yes(), yes()), boolean()));
    assert!(has_type(op(BinOp::NaturalPlus, num(1), num(1)), natural()));
    assert!(has_type(op(BinOp::NaturalTimes, num(1), num(1)), natural()));
    assert!(has_type(op(BinOp::TextAppend, text("a"), text("b")), text_type()));
    match message(op(BinOp::BoolAnd, num(1), yes())) {
        TypeMessage::BinOpTypeMismatch(BinOp::BoolAnd, Expr::NaturalLit(1)) => {}
        other => panic!("{:?}", other),
    }
    match message(op(BinOp::TextAppend, text("a"), num(2))) {
        TypeMessage::BinOpTypeMismatch(BinOp::TextAppend, Expr::NaturalLit(2)) => {}
        other => panic!("{:?}", other),
    }
    match message(op(BinOp::NaturalTimes, yes(), num(2))) {
        TypeMessage::BinOpTypeMismatch(BinOp::NaturalTimes, Expr::BoolLit(true)) => {}
        other => panic!("{:?}", other),
    }
}

#[test]
fn list_append() {
    let xs = || list(vec![num(1)]);
    assert!(has_type(op(BinOp::ListAppend, xs(), xs()), list_of(natural())));
    match message(op(BinOp::ListAppend, num(1), xs())) {
        TypeMessage::BinOpTypeMismatch(BinOp::ListAppend, Expr::NaturalLit(1)) => {}
        other => panic!("{:?}", other),
    }
    match message(op(BinOp::ListAppend, xs(), list(vec![yes()]))) {
        TypeMessage::BinOpTypeMismatch(BinOp::ListAppend, Expr::NEListLit(_, _)) => {}
        other => panic!("{:?}", other),
    }
    assert!(matches!(
        message(op(BinOp::ListAppend, xs(), num(1))),
        TypeMessage::BinOpTypeMismatch(BinOp::ListAppend, Expr::NaturalLit(1))
    ));
}

#[test]
fn text_interpolation() {
    let good = Expr::TextLit(vec![(name("a"), text("b"))], name("c"));
    assert!(has_type(good, text_type()));
    let bad = Expr::TextLit(vec![(name("a"), num(1))], name("c"));
    assert!(matches!(
        message(bad),
        TypeMessage::InvalidTextInterpolation(Expr::NaturalLit(1))
    ));
}

#[test]
fn equivalence_and_assert() {
    let eq = |l: Expr, r: Expr| op(BinOp::Equivalence, l, r);
    assert!(has_type(eq(num(1), num(1)), ty()));
    assert!(has_type(eq(num(1), num(2)), ty()));
    assert!(matches!(
        message(eq(natural(), num(1))),
        TypeMessage::EquivalenceArgumentMustBeTerm(true, _)
    ));
    assert!(matches!(
        message(eq(num(1), natural())),
        TypeMessage::EquivalenceArgumentMustBeTerm(false, _)
    ));
    assert!(matches!(message(eq(num(1), yes())), TypeMessage::EquivalenceTypeMismatch(_, _)));
    let holds = Expr::Assert(Box::new(eq(op(BinOp::NaturalPlus, num(1), num(1)), num(2))));
    assert!(has_type(holds, eq(num(2), num(2))));
    let fails = Expr::Assert(Box::new(eq(num(1), num(2))));
    assert!(matches!(
        message(fails),
        TypeMessage::AssertMismatch(Expr::NaturalLit(1), Expr::NaturalLit(2))
    ));
    assert!(matches!(
        message(Expr::Assert(Box::new(natural()))),
        TypeMessage::AssertMustTakeEquivalence
    ));
}

#[test]
fn right_biased_merge() {
    let m = |l: Expr, r: Expr| op(BinOp::RightBiasedRecordMerge, l, r);
    assert!(has_type(
        m(record(vec![("a", num(1))]), record(vec![("a", yes()), ("b", num(2))])),
        record_type(vec![("a", boolean()), ("b", natural())])
    ));
    assert!(matches!(
        message(m(num(1), num(2))),
        TypeMessage::MustCombineRecord(true, Expr::NaturalLit(1))
    ));
    assert!(matches!(
        message(m(record(vec![]), num(2))),
        TypeMessage::MustCombineRecord(false, Expr::NaturalLit(2))
    ));
    assert!(matches!(
        message(m(record(vec![("a", natural())]), record(vec![("b", num(1))]))),
        TypeMessage::RecordMismatch(_, _)
    ));
}

#[test]
fn recursive_merge() {
    let m = |l: Expr, r: Expr| op(BinOp::RecursiveRecordMerge, l, r);
    let l = || record(vec![("a", num(1)), ("b", record(vec![("c", num(2))]))]);
    let r = || record(vec![("b", record(vec![("d", yes())])), ("e", num(4))]);
    let expected = record_type(vec![
        ("a", natural()),
        ("b", record_type(vec![("c", natural()), ("d", boolean())])),
        ("e", natural()),
    ]);
    assert!(has_type(m(l(), r()), expected));
    match message(m(record(vec![("a", num(1))]), record(vec![("a", num(2))]))) {
        TypeMessage::FieldCollision(l) => assert_eq!(l, "a"),
        other => panic!("{:?}", other),
    }
    match message(m(l(), record(vec![("b", record(vec![("c", num(0))]))]))) {
        TypeMessage::FieldCollision(l) => assert_eq!(l, "c"),
        other => panic!("{:?}", other),
    }
    assert!(matches!(
        message(m(record(vec![]), yes())),
        TypeMessage::MustCombineRecord(false, Expr::BoolLit(true))
    ));
}

#[test]
fn recursive_type_merge() {
    let m = |l: Expr, r: Expr| op(BinOp::RecursiveRecordTypeMerge, l, r);
    let l = || record_type(vec![("a", natural()), ("b", record_type(vec![("c", natural())]))]);
    let r = || record_type(vec![("b", record_type(vec![("d", boolean())])), ("e", natural())]);
    assert!(has_type(m(l(), r()), ty()));
    let tv = check(m(l(), r())).unwrap();
    let n = normalize(&tv).unwrap();
    let expected = record_type(vec![
        ("a", natural()),
        ("b", record_type(vec![("c", natural()), ("d", boolean())])),
        ("e", natural()),
    ]);
    assert!(same(&n, &expected));
    assert!(matches!(
        message(m(record_type(vec![("a", natural())]), record_type(vec![("a", natural())]))),
        TypeMessage::FieldCollision(_)
    ));
    assert!(matches!(
        message(m(num(1), record_type(vec![]))),
        TypeMessage::RecordTypeMergeRequiresRecordType(true, _)
    ));
    assert!(matches!(
        message(m(record_type(vec![]), num(1))),
        TypeMessage::RecordTypeMergeRequiresRecordType(false, _)
    ));
    assert!(matches!(
        message(m(natural(), record_type(vec![]))),
        TypeMessage::RecordTypeMergeRequiresRecordType(true, _)
    ));
    match message(m(record_type(vec![("a", natural())]), record_type(vec![("b", ty())]))) {
        TypeMessage::RecordTypeMismatch(Const::Type, Const::Kind, _, _) => {}
        other => panic!("{:?}", other),
    }
}

fn either() -> Expr {
    union_type(vec![("Left", Some(natural())), ("Right", Some(boolean()))])
}

fn left(n: u64) -> Expr {
    app(field(either(), "Left"), num(n))
}

#[test]
fn merge_rules() {
    let hs = || {
        record(vec![
            ("Left", lam("n", natural(), var("n"))),
            ("Right", lam("b", boolean(), num(0))),
        ])
    };
    assert!(has_type(merge(hs(), left(1), None), natural()));
    assert!(has_type(merge(hs(), left(1), Some(natural())), natural()));
    assert!(matches!(
        message(merge(hs(), left(1), Some(boolean()))),
        TypeMessage::MergeAnnotMismatch
    ));
    assert!(matches!(
        message(merge(num(1), left(1), None)),
        TypeMessage::Merge1ArgMustBeRecord(_)
    ));
    assert!(matches!(message(merge(hs(), num(1), None)), TypeMessage::Merge2ArgMustBeUnion(_)));
    let missing = record(vec![("Left", lam("n", natural(), var("n")))]);
    match message(merge(missing, left(1), None)) {
        TypeMessage::MergeVariantMissingHandler(l) => assert_eq!(l, "Right"),
        other => panic!("{:?}", other),
    }
    let extra = record(vec![
        ("Left", lam("n", natural(), var("n"))),
        ("Right", lam("b", boolean(), num(0))),
        ("Other", lam("b", boolean(), num(0))),
    ]);
    match message(merge(extra, left(1), None)) {
        TypeMessage::MergeHandlerMissingVariant(l) => assert_eq!(l, "Other"),
        other => panic!("{:?}", other),
    }
    let differ = record(vec![
        ("Left", lam("n", natural(), var("n"))),
        ("Right", lam("b", boolean(), var("b"))),
    ]);
    assert!(matches!(
        message(merge(differ, left(1), None)),
        TypeMessage::MergeHandlerTypeMismatch
    ));
    let not_function =
        record(vec![("Left", num(1)), ("Right", lam("b", boolean(), num(0)))]);
    assert!(matches!(
        message(merge(not_function, left(1), None)),
        TypeMessage::NotAFunction(_)
    ));
    let wrong_argument = record(vec![
        ("Left", lam("n", boolean(), num(0))),
        ("Right", lam("b", boolean(), num(0))),
    ]);
    assert!(matches!(
        message(merge(wrong_argument, left(1), None)),
        TypeMessage::TypeMismatch(_, _, _)
    ));
}

#[test]
fn merge_of_nothing() {
    let none = || union_type(vec![]);
    let absurd = |t: Option<Expr>| {
        lam("x", none(), merge(record(vec![]), var("x"), t))
    };
    assert!(has_type(absurd(Some(natural())), pi("_", none(), natural())));
    assert!(matches!(message(absurd(None)), TypeMessage::MergeEmptyNeedsAnnotation));
}

#[test]
fn merge_handler_may_not_depend_on_its_argument() {
    let u = union_type(vec![("A", Some(ty()))]);
    // λ(t : Type) → λ(x : t) → x has the type ∀(t : Type) → ∀(x : t) → t,
    // whose result mentions t
    let h = record(vec![("A", lam("t", ty(), lam("x", var("t"), var("x"))))]);
    let e = merge(h, app(field(u, "A"), natural()), None);
    assert!(matches!(message(e), TypeMessage::MergeHandlerReturnTypeMustNotBeDependent));
}

#[test]
fn merge_with_alternatives_that_hold_nothing() {
    let u = || union_type(vec![("A", None), ("B", Some(natural()))]);
    let hs = || record(vec![("A", num(0)), ("B", lam("n", natural(), var("n")))]);
    assert!(has_type(merge(hs(), field(u(), "A"), None), natural()));
    let tv = check(merge(hs(), field(u(), "A"), None)).unwrap();
    assert!(matches!(normalize(&tv), Some(Expr::NaturalLit(0))));
    let tv = check(merge(hs(), app(field(u(), "B"), num(5)), None)).unwrap();
    assert!(matches!(normalize(&tv), Some(Expr::NaturalLit(5))));
}

#[test]
fn sort_has_no_type() {
    assert!(matches!(message(Expr::Const(Const::Sort)), TypeMessage::Sort));
    let err = check(Expr::Const(Const::Sort)).unwrap_err();
    assert!(err.context.0.is_empty());
    // as a part of an expression it is accepted until its type is asked for
    assert!(matches!(
        message(lam("x", Expr::Const(Const::Sort), var("x"))),
        TypeMessage::Sort
    ));
}

#[test]
fn the_budget_bounds_the_depth() {
    let e = || op(BinOp::NaturalPlus, num(1), num(2));
    assert!(matches!(
        Resolved(e()).typecheck_within(0).unwrap_err().type_message,
        TypeMessage::BudgetExhausted
    ));
    assert!(matches!(
        Resolved(e()).typecheck_within(1).unwrap_err().type_message,
        TypeMessage::BudgetExhausted
    ));
    assert!(Resolved(e()).typecheck_within(64).is_ok());
    assert_eq!(dhall::DEFAULT_BUDGET, 512);
    assert!(matches!(
        type_of(&num(1), 0).unwrap_err().type_message,
        TypeMessage::BudgetExhausted
    ));
    assert!(type_of(&num(1), 1).is_ok());
}

#[test]
fn context_lookup() {
    let ctx = TypecheckContext::new();
    assert!(ctx.lookup(&V(name("x"), 0)).is_none());
    let nat_type = type_with(&ctx, &natural(), 16).unwrap();
    let bool_type = type_with(&ctx, &boolean(), 16).unwrap();
    let one = type_with(&ctx, &num(1), 16).unwrap();
    let ctx = ctx.insert_type(&name("x"), &nat_type).unwrap();
    let ctx = ctx.insert_value(&name("x"), &one);
    let ctx = ctx.insert_type(&name("x"), &bool_type).unwrap();
    let ctx = ctx.insert_type(&name("y"), &bool_type).unwrap();
    // newest first: x@0 is the Bool, x@1 the value 1, x@2 the Natural
    let x0 = ctx.lookup(&V(name("x"), 0)).unwrap();
    assert_eq!(show(&x0.to_value()), show(&var_at("x", 0)));
    assert_eq!(show(&x0.get_type().unwrap().to_value()), show(&boolean()));
    let x1 = ctx.lookup(&V(name("x"), 1)).unwrap();
    assert_eq!(show(&x1.to_value()), show(&num(1)));
    let x2 = ctx.lookup(&V(name("x"), 2)).unwrap();
    assert_eq!(show(&x2.to_value()), show(&var_at("x", 1)));
    assert_eq!(show(&x2.get_type().unwrap().to_value()), show(&natural()));
    assert!(ctx.lookup(&V(name("x"), 3)).is_none());
    assert!(ctx.lookup(&V(name("y"), 0)).is_some());
    assert!(ctx.lookup(&V(name("y"), 1)).is_none());
    let types = ctx.types_only();
    assert_eq!(types.0.len(), 3);
    let x1 = types.lookup(&V(name("x"), 1)).unwrap();
    assert_eq!(show(&x1.to_value()), show(&var_at("x", 1)));
}

#[test]
fn inserting_a_type_shifts_what_was_there() {
    let ctx = TypecheckContext::new();
    let a = type_with(&ctx, &ty(), 16).unwrap();
    let ctx = ctx.insert_type(&name("a"), &a).unwrap();
    // x : a
    let xa = type_with(&ctx, &var("a"), 16).unwrap();
    let ctx = ctx.insert_type(&name("x"), &xa).unwrap();
    // a second a: the type of x is now a@1
    let ctx = ctx.insert_type(&name("a"), &a).unwrap();
    let x = ctx.lookup(&V(name("x"), 0)).unwrap();
    assert_eq!(show(&x.get_type().unwrap().to_value()), show(&var_at("a", 1)));
    let outer = ctx.lookup(&V(name("a"), 1)).unwrap();
    assert_eq!(show(&outer.to_value()), show(&var_at("a", 1)));
}

#[test]
fn normal_form_of_a_checked_value() {
    let e = app(
        lam("r", record_type(vec![("a", natural())]), field(var("r"), "a")),
        record(vec![("a", op(BinOp::NaturalPlus, num(1), num(1)))]),
    );
    let tv = check(e).unwrap();
    assert!(matches!(normalize(&tv), Some(Expr::NaturalLit(2))));
    assert!(matches!(nf(&tv.to_value(), 2), None));
}

#[test]
fn reduction_keeps_the_type() {
    let e = || app(lam("x", natural(), op(BinOp::NaturalPlus, var("x"), num(1))), num(2));
    let before = inferred(e());
    let tv = check(e()).unwrap();
    let reduced = dhall::normalize::whnf(&tv.to_value(), 64).unwrap();
    assert_eq!(show(&reduced), show(&num(3)));
    let after = inferred(reduced);
    assert!(same(&before, &after));
    assert_eq!(show(&after), show(&natural()));
}

#[test]
fn a_value_taken_on_trust_has_no_type() {
    let trusted = Resolved(num(1)).skip_typecheck();
    let ctx = TypecheckContext::new().insert_value(&name("x"), &trusted);
    let tv = type_with(&ctx, &var("x"), 16).unwrap();
    assert!(matches!(tv, TypedValue::Untyped(Expr::NaturalLit(1))));
    let err = type_with(&ctx, &annot(var("x"), natural()), 16).unwrap_err();
    assert!(matches!(err.type_message, TypeMessage::Untyped));
    let err = type_with(&ctx, &op(BinOp::NaturalPlus, var("x"), num(1)), 16).unwrap_err();
    assert!(matches!(err.type_message, TypeMessage::Untyped));
}

#[test]
fn more_budget_gives_the_same_answer() {
    let e = || {
        apply(
            lam("a", ty(), lam("x", var("a"), var("x"))),
            vec![natural(), op(BinOp::NaturalPlus, num(1), num(2))],
        )
    };
    let mut first = None;
    for fuel in 0..40u64 {
        match Resolved(e()).typecheck_within(fuel) {
            Ok(tv) => {
                let shown = format!("{:?}", tv);
                match &first {
                    None => first = Some(shown),
                    Some(s) => assert_eq!(s, &shown),
                }
            }
            Err(err) => {
                assert!(first.is_none());
                assert!(matches!(err.type_message, TypeMessage::BudgetExhausted));
            }
        }
    }
    assert!(first.is_some());
    let bad = || app(num(1), num(2));
    let mut seen = false;
    for fuel in 0..40u64 {
        match Resolved(bad()).typecheck_within(fuel).unwrap_err().type_message {
            TypeMessage::BudgetExhausted => assert!(!seen),
            TypeMessage::NotAFunction(_) => seen = true,
            other => panic!("{:?}", other),
        }
    }
    assert!(seen);
}

fn chain(depth: usize) -> Expr {
    let mut e = num(1);
    for _ in 0..depth {
        e = op(BinOp::NaturalPlus, num(1), e);
    }
    e
}

#[test]
fn a_deep_expression_within_the_default_budget() {
    assert!(has_type(chain(400), natural()));
    let tv = check(chain(200)).unwrap();
    assert!(matches!(normalize(&tv), Some(Expr::NaturalLit(201))));
}

#[test]
fn a_deeper_expression_than_the_default_budget() {
    assert!(matches!(message(chain(3000)), TypeMessage::BudgetExhausted));
    assert!(matches!(message(chain(600)), TypeMessage::BudgetExhausted));
    assert!(Resolved(chain(600)).typecheck_within(700).is_ok());
}

#[test]
fn a_long_fold_ends_with_the_budget() {
    let succ = || lam("n", natural(), op(BinOp::NaturalPlus, var("n"), num(1)));
    let fold = |n: u64| {
        apply(builtin(Builtin::NaturalFold), vec![num(n), natural(), succ(), num(0)])
    };
    assert!(matches!(dhall::normalize::whnf(&fold(50), 512), Some(Expr::NaturalLit(50))));
    assert!(dhall::normalize::whnf(&fold(100000), 512).is_none());
    let tv = check(fold(100000)).unwrap();
    assert!(normalize(&tv).is_none());
}

fn list_map() -> Expr {
    // λ(a : Type) → λ(b : Type) → λ(f : a → b) → λ(xs : List a) →
    //   List/build b (λ(list : Type) → λ(cons : b → list → list) →
    //     List/fold a xs list (λ(x : a) → cons (f x)))
    let step = lam("x", var("a"), app(var("cons"), app(var("f"), var("x"))));
    let inner = lam(
        "list",
        ty(),
        lam(
            "cons",
            pi("_", var("b"), pi("_", var("list"), var("list"))),
            apply(builtin(Builtin::ListFold), vec![var("a"), var("xs"), var("list"), step]),
        ),
    );
    lam(
        "a",
        ty(),
        lam(
            "b",
            ty(),
            lam(
                "f",
                pi("_", var("a"), var("b")),
                lam(
                    "xs",
                    list_of(var("a")),
                    apply(builtin(Builtin::ListBuild), vec![var("b"), inner]),
                ),
            ),
        ),
    )
}

#[test]
fn a_function_over_lists() {
    let expected = pi(
        "a",
        ty(),
        pi(
            "b",
            ty(),
            pi("f", pi("_", var("a"), var("b")), pi("xs", list_of(var("a")), list_of(var("b")))),
        ),
    );
    assert!(has_type(list_map(), expected));
    let succ = lam("n", natural(), op(BinOp::NaturalPlus, var("n"), num(1)));
    let e = || {
        apply(
            list_map(),
            vec![
                natural(),
                natural(),
                lam("n", natural(), op(BinOp::NaturalPlus, var("n"), num(1))),
                list(vec![num(1), num(2), num(3)]),
            ],
        )
    };
    let _ = succ;
    assert!(has_type(e(), list_of(natural())));
    let tv = check(e()).unwrap();
    assert_eq!(normalize(&tv), Some(list(vec![num(2), num(3), num(4)])));
    let to_bool = apply(
        list_map(),
        vec![natural(), boolean(), builtin(Builtin::NaturalIsZero), list(vec![num(0), num(5)])],
    );
    let tv = check(to_bool).unwrap();
    assert_eq!(normalize(&tv), Some(list(vec![yes(), Expr::BoolLit(false)])));
    let wrong = apply(list_map(), vec![natural(), boolean(), builtin(Builtin::NaturalShow)]);
    assert!(matches!(message(wrong), TypeMessage::TypeMismatch(_, _, _)));
}

#[test]
fn dependent_types_with_shadowing() {
    // λ(a : Type) → λ(a : a) → a : ∀(a : Type) → ∀(a : a) → a@1
    let e = lam("a", ty(), lam("a", var("a"), var("a")));
    assert!(has_type(e, pi("a", ty(), pi("a", var("a"), var_at("a", 1)))));
    // applied to Natural and 1 it gives 1 : Natural
    let e = || apply(lam("a", ty(), lam("a", var("a"), var("a"))), vec![natural(), num(1)]);
    assert!(has_type(e(), natural()));
    let tv = check(e()).unwrap();
    assert_eq!(normalize(&tv), Some(num(1)));
    // a type that is computed
    let id_type = lam("t", ty(), var("t"));
    let e = lam("x", app(id_type, natural()), op(BinOp::NaturalPlus, var("x"), num(1)));
    assert!(has_type(e, pi("x", natural(), natural())));
    // a function that returns a type, used in an annotation
    let choose = lam("b", boolean(), if_(var("b"), num(1), num(2)));
    assert!(has_type(app(choose, yes()), natural()));
}

#[test]
fn optional_and_natural_functions_of_the_prelude_kind() {
    // Optional/map-like: λ(o : Optional Natural) → Optional/fold Natural o Natural (λ(x : Natural) → x) 0
    let e = || {
        lam(
            "o",
            optional_of(natural()),
            apply(
                builtin(Builtin::OptionalFold),
                vec![natural(), var("o"), natural(), lam("x", natural(), var("x")), num(0)],
            ),
        )
    };
    assert!(has_type(e(), pi("o", optional_of(natural()), natural())));
    let tv = check(app(e(), some(num(9)))).unwrap();
    assert_eq!(normalize(&tv), Some(num(9)));
    let tv = check(app(e(), app(builtin(Builtin::OptionalNone), natural()))).unwrap();
    assert_eq!(normalize(&tv), Some(num(0)));
    // Natural/build and Natural/fold are inverse on a literal
    let e = app(
        builtin(Builtin::NaturalBuild),
        app(builtin(Builtin::NaturalFold), num(4)),
    );
    let tv = check(e).unwrap();
    assert_eq!(normalize(&tv), Some(num(4)));
}
