use dhall::equality::{alpha_eq, match_vars, prop_equal};
use dhall::normalize::{nf, whnf};
use dhall::var::{rename, shift, subst_shift};
use dhall::{BinOp, Builtin, Const, Expr, V};

fn name(s: &str) -> String {
    s.to_string()
}

fn var_at(s: &str, n: u64) -> Expr {
    Expr::Var(V(name(s), n))
}

fn var(s: &str) -> Expr {
    var_at(s, 0)
}

fn builtin(b: Builtin) -> Expr {
    Expr::Builtin(b)
}

fn natural() -> Expr {
    builtin(Builtin::Natural)
}

fn num(n: u64) -> Expr {
    Expr::NaturalLit(n)
}

fn lam(x: &str, t: Expr, b: Expr) -> Expr {
    Expr::Lam(name(x), Box::new(t), Box::new(b))
}

fn pi(x: &str, t: Expr, b: Expr) -> Expr {
    Expr::Pi(name(x), Box::new(t), Box::new(b))
}

fn app(f: Expr, a: Expr) -> Expr {
    Expr::App(Box::new(f), Box::new(a))
}

fn apply(f: Expr, args: Vec<Expr>) -> Expr {
    args.into_iter().fold(f, app)
}

fn op(o: BinOp, l: Expr, r: Expr) -> Expr {
    Expr::BinOp(o, Box::new(l), Box::new(r))
}

fn list(items: Vec<Expr>) -> Expr {
    let mut it = items.into_iter();
    let first = it.next().unwrap();
    Expr::NEListLit(Box::new(first), it.collect())
}

fn empty_list(t: Expr) -> Expr {
    Expr::EmptyListLit(Box::new(app(builtin(Builtin::List), t)))
}

fn record(fs: Vec<(&str, Expr)>) -> Expr {
    Expr::RecordLit(fs.into_iter().map(|(l, e)| (name(l), e)).collect())
}

fn text(s: &str) -> Expr {
    Expr::TextLit(Vec::new(), name(s))
}

fn show(e: &Expr) -> String {
    format!("{:?}", e)
}

fn same(a: &Expr, b: &Expr) -> bool {
    alpha_eq(&Vec::new(), a, b)
}

fn head(e: Expr) -> Expr {
    whnf(&e, 1000).unwrap()
}

fn normal(e: Expr) -> Expr {
    nf(&e, 1000).unwrap()
}

#[test]
fn shift_by_zero_changes_nothing() {
    let e = lam("x", natural(), app(var_at("x", 1), var_at("y", 3)));
    let r = shift(0, &V(name("x"), 0), &e).unwrap();
    assert_eq!(show(&r), show(&e));
}

#[test]
fn shift_raises_free_variables_only() {
    // λ(x : Natural) → x@0 x@1 y : the first x is bound, the second free
    let e = lam("x", natural(), apply(var_at("x", 0), vec![var_at("x", 1), var("y")]));
    let r = shift(1, &V(name("x"), 0), &e).unwrap();
    let expected = lam("x", natural(), apply(var_at("x", 0), vec![var_at("x", 2), var("y")]));
    assert_eq!(show(&r), show(&expected));
}

#[test]
fn shift_respects_the_cutoff() {
    let e = app(var_at("x", 1), var_at("x", 2));
    let r = shift(5, &V(name("x"), 2), &e).unwrap();
    assert_eq!(show(&r), show(&app(var_at("x", 1), var_at("x", 7))));
}

#[test]
fn two_shifts_make_one() {
    let e = lam("y", var_at("x", 0), app(var_at("x", 4), var_at("y", 0)));
    let v = V(name("x"), 0);
    let once = shift(5, &v, &e).unwrap();
    let step = shift(3, &v, &shift(2, &v, &e).unwrap()).unwrap();
    assert_eq!(show(&once), show(&step));
    let down = shift(-2, &v, &shift(-1, &v, &shift(3, &v, &e).unwrap()).unwrap()).unwrap();
    assert_eq!(show(&down), show(&e));
}

#[test]
fn shift_down_fails_on_the_variable_it_removes() {
    let v = V(name("x"), 0);
    assert!(shift(-1, &v, &var("x")).is_none());
    assert!(shift(-1, &v, &var_at("x", 1)).is_some());
    // under a binder of x the removed variable is x@1
    assert!(shift(-1, &v, &lam("x", natural(), var_at("x", 1))).is_none());
    assert!(shift(-1, &v, &lam("x", natural(), var_at("x", 0))).is_some());
    assert!(shift(-1, &v, &var("y")).is_some());
}

#[test]
fn shift_fails_past_the_greatest_index() {
    let v = V(name("x"), 0);
    assert!(shift(1, &v, &var_at("x", u64::MAX)).is_none());
    assert!(shift(1, &v, &var_at("x", u64::MAX - 1)).is_some());
}

#[test]
fn substitution_avoids_capture() {
    // (λ(y : Natural) → x)[x := y] = λ(y : Natural) → y@1
    let body = lam("y", natural(), var("x"));
    let r = subst_shift(&V(name("x"), 0), &var("y"), &body).unwrap();
    assert_eq!(show(&r), show(&lam("y", natural(), var_at("y", 1))));
}

#[test]
fn substitution_lowers_the_variables_above() {
    let body = apply(var_at("x", 0), vec![var_at("x", 1), var_at("x", 2)]);
    let r = subst_shift(&V(name("x"), 0), &num(7), &body).unwrap();
    assert_eq!(show(&r), show(&apply(num(7), vec![var_at("x", 0), var_at("x", 1)])));
}

#[test]
fn substitution_under_a_binder_of_the_same_name() {
    let body = lam("x", natural(), app(var_at("x", 0), var_at("x", 1)));
    let r = subst_shift(&V(name("x"), 0), &num(7), &body).unwrap();
    assert_eq!(show(&r), show(&lam("x", natural(), app(var_at("x", 0), num(7)))));
}

#[test]
fn beta_reduction() {
    let e = app(lam("x", natural(), op(BinOp::NaturalPlus, var("x"), num(1))), num(2));
    assert!(matches!(head(e), Expr::NaturalLit(3)));
}

#[test]
fn weak_head_normal_form_leaves_what_is_below() {
    let redex = app(lam("x", natural(), var("x")), num(1));
    let e = lam("y", natural(), redex);
    let w = head(lam("y", natural(), app(lam("x", natural(), var("x")), num(1))));
    assert_eq!(show(&w), show(&e));
    let n = normal(lam("y", natural(), app(lam("x", natural(), var("x")), num(1))));
    assert_eq!(show(&n), show(&lam("y", natural(), num(1))));
}

#[test]
fn weak_head_normal_form_reduces_to_itself() {
    let stuck = Expr::BoolIf(
        Box::new(app(lam("x", natural(), var("b")), num(1))),
        Box::new(num(1)),
        Box::new(num(2)),
    );
    let w = head(stuck);
    let again = head(whnf(&w, 1000).unwrap());
    assert_eq!(show(&w), show(&again));
    match w {
        Expr::BoolIf(c, _, _) => assert_eq!(show(&c), show(&var("b"))),
        other => panic!("{:?}", other),
    }
}

#[test]
fn reduction_stops_when_the_budget_is_spent() {
    assert!(whnf(&num(1), 0).is_none());
    assert!(whnf(&num(1), 1).is_some());
    let e = app(lam("x", natural(), var("x")), num(1));
    assert!(whnf(&e, 1).is_none());
    assert!(matches!(whnf(&e, 2), Some(Expr::NaturalLit(1))));
    assert!(nf(&num(1), 0).is_none());
}

#[test]
fn let_is_replaced_by_its_value() {
    let e = Expr::Let(
        name("x"),
        None,
        Box::new(num(2)),
        Box::new(op(BinOp::NaturalTimes, var("x"), var("x"))),
    );
    assert!(matches!(head(e), Expr::NaturalLit(4)));
}

#[test]
fn operators_fold_literals() {
    let t = Expr::BoolLit(true);
    let f = Expr::BoolLit(false);
    assert!(matches!(head(op(BinOp::BoolAnd, Expr::BoolLit(true), Expr::BoolLit(false))), Expr::BoolLit(false)));
    assert!(matches!(head(op(BinOp::BoolOr, Expr::BoolLit(true), Expr::BoolLit(false))), Expr::BoolLit(true)));
    assert!(matches!(head(op(BinOp::BoolEQ, Expr::BoolLit(false), Expr::BoolLit(false))), Expr::BoolLit(true)));
    assert!(matches!(head(op(BinOp::BoolNE, Expr::BoolLit(false), Expr::BoolLit(false))), Expr::BoolLit(false)));
    assert!(matches!(head(op(BinOp::NaturalPlus, num(40), num(2))), Expr::NaturalLit(42)));
    assert!(matches!(head(op(BinOp::NaturalTimes, num(6), num(7))), Expr::NaturalLit(42)));
    let _ = (t, f);
}

#[test]
fn sum_outside_the_range_gives_up() {
    assert!(whnf(&op(BinOp::NaturalPlus, num(u64::MAX), num(1)), 10).is_none());
    assert!(whnf(&op(BinOp::NaturalTimes, num(u64::MAX), num(2)), 10).is_none());
    assert!(matches!(
        whnf(&op(BinOp::NaturalPlus, num(u64::MAX), num(0)), 10),
        Some(Expr::NaturalLit(u64::MAX))
    ));
}

#[test]
fn operator_on_a_variable_stays() {
    let w = head(op(BinOp::NaturalPlus, var("x"), num(1)));
    assert_eq!(show(&w), show(&op(BinOp::NaturalPlus, var("x"), num(1))));
}

#[test]
fn text_append_joins_literals() {
    let l = Expr::TextLit(vec![(name("a"), var("x"))], name("b"));
    let r = Expr::TextLit(vec![(name("c"), var("y"))], name("d"));
    let w = head(op(BinOp::TextAppend, l, r));
    let expected = Expr::TextLit(vec![(name("a"), var("x")), (name("bc"), var("y"))], name("d"));
    assert_eq!(show(&w), show(&expected));
    let w = head(op(BinOp::TextAppend, text("ab"), text("cd")));
    assert_eq!(show(&w), show(&text("abcd")));
}

#[test]
fn list_append_joins_literals() {
    let w = head(op(BinOp::ListAppend, list(vec![num(1), num(2)]), list(vec![num(3)])));
    assert_eq!(show(&w), show(&list(vec![num(1), num(2), num(3)])));
    let w = head(op(BinOp::ListAppend, empty_list(natural()), list(vec![num(3)])));
    assert_eq!(show(&w), show(&list(vec![num(3)])));
    let w = head(op(BinOp::ListAppend, list(vec![num(3)]), empty_list(natural())));
    assert_eq!(show(&w), show(&list(vec![num(3)])));
}

#[test]
fn record_merges() {
    let l = || record(vec![("a", num(1)), ("b", record(vec![("c", num(2))]))]);
    let r = || record(vec![("b", record(vec![("d", num(3))])), ("e", num(4))]);
    let w = head(op(BinOp::RightBiasedRecordMerge, l(), r()));
    let expected = record(vec![
        ("a", num(1)),
        ("b", record(vec![("d", num(3))])),
        ("e", num(4)),
    ]);
    assert_eq!(show(&w), show(&expected));
    let n = normal(op(BinOp::RecursiveRecordMerge, l(), r()));
    let expected = record(vec![
        ("a", num(1)),
        ("b", record(vec![("c", num(2)), ("d", num(3))])),
        ("e", num(4)),
    ]);
    assert_eq!(show(&n), show(&expected));
}

#[test]
fn selection_and_projection() {
    let r = || record(vec![("a", num(1)), ("b", num(2)), ("c", num(3))]);
    assert!(matches!(head(Expr::Field(Box::new(r()), name("b"))), Expr::NaturalLit(2)));
    let w = head(Expr::Projection(Box::new(r()), vec![name("c"), name("a")]));
    assert_eq!(show(&w), show(&record(vec![("c", num(3)), ("a", num(1))])));
    let stuck = head(Expr::Field(Box::new(var("r")), name("b")));
    assert_eq!(show(&stuck), show(&Expr::Field(Box::new(var("r")), name("b"))));
}

#[test]
fn conditional_on_a_literal() {
    let e = |c: bool| Expr::BoolIf(Box::new(Expr::BoolLit(c)), Box::new(num(1)), Box::new(num(2)));
    assert!(matches!(head(e(true)), Expr::NaturalLit(1)));
    assert!(matches!(head(e(false)), Expr::NaturalLit(2)));
}

#[test]
fn natural_builtins() {
    let one = |b: Builtin, n: u64| head(app(builtin(b), num(n)));
    assert!(matches!(one(Builtin::NaturalIsZero, 0), Expr::BoolLit(true)));
    assert!(matches!(one(Builtin::NaturalIsZero, 3), Expr::BoolLit(false)));
    assert!(matches!(one(Builtin::NaturalEven, 4), Expr::BoolLit(true)));
    assert!(matches!(one(Builtin::NaturalEven, 5), Expr::BoolLit(false)));
    assert!(matches!(one(Builtin::NaturalOdd, 5), Expr::BoolLit(true)));
    assert!(matches!(one(Builtin::NaturalOdd, 4), Expr::BoolLit(false)));
    assert!(matches!(one(Builtin::NaturalToInteger, 7), Expr::IntegerLit(7)));
    assert!(whnf(&app(builtin(Builtin::NaturalToInteger), num(u64::MAX)), 10).is_none());
    let sub = |m: u64, n: u64| head(apply(builtin(Builtin::NaturalSubtract), vec![num(m), num(n)]));
    assert!(matches!(sub(2, 5), Expr::NaturalLit(3)));
    assert!(matches!(sub(5, 2), Expr::NaturalLit(0)));
    assert!(matches!(sub(5, 5), Expr::NaturalLit(0)));
}

#[test]
fn natural_fold_and_build() {
    let succ = || lam("n", natural(), op(BinOp::NaturalPlus, var("n"), num(2)));
    let fold = |n: u64| apply(builtin(Builtin::NaturalFold), vec![num(n), natural(), succ(), num(1)]);
    assert!(matches!(head(fold(0)), Expr::NaturalLit(1)));
    assert!(matches!(head(fold(3)), Expr::NaturalLit(7)));
    // Natural/build (λ(natural : Type) → λ(succ : natural → natural) → λ(zero : natural) → succ (succ zero))
    let g = lam(
        "natural",
        Expr::Const(Const::Type),
        lam(
            "succ",
            pi("_", var("natural"), var("natural")),
            lam("zero", var("natural"), app(var("succ"), app(var("succ"), var("zero")))),
        ),
    );
    assert!(matches!(head(app(builtin(Builtin::NaturalBuild), g)), Expr::NaturalLit(2)));
}

#[test]
fn list_builtins() {
    let xs = || list(vec![num(1), num(2), num(3)]);
    let on = |b: Builtin, l: Expr| head(apply(builtin(b), vec![natural(), l]));
    assert!(matches!(on(Builtin::ListLength, xs()), Expr::NaturalLit(3)));
    assert!(matches!(on(Builtin::ListLength, empty_list(natural())), Expr::NaturalLit(0)));
    assert_eq!(show(&on(Builtin::ListHead, xs())), show(&Expr::SomeLit(Box::new(num(1)))));
    assert_eq!(show(&on(Builtin::ListLast, xs())), show(&Expr::SomeLit(Box::new(num(3)))));
    assert_eq!(
        show(&on(Builtin::ListLast, list(vec![num(9)]))),
        show(&Expr::SomeLit(Box::new(num(9))))
    );
    assert_eq!(
        show(&on(Builtin::ListLast, empty_list(natural()))),
        show(&app(builtin(Builtin::OptionalNone), natural()))
    );
    assert_eq!(show(&on(Builtin::ListReverse, xs())), show(&list(vec![num(3), num(2), num(1)])));
    assert_eq!(show(&on(Builtin::ListReverse, list(vec![num(1)]))), show(&list(vec![num(1)])));
    assert_eq!(
        show(&on(Builtin::ListReverse, empty_list(natural()))),
        show(&empty_list(natural()))
    );
    let stuck = on(Builtin::ListLength, var("xs"));
    assert_eq!(
        show(&stuck),
        show(&apply(builtin(Builtin::ListLength), vec![natural(), var("xs")]))
    );
}

#[test]
fn list_fold_and_build() {
    let cons = || {
        lam("x", natural(), lam("acc", natural(), op(BinOp::NaturalPlus, var("x"), var("acc"))))
    };
    let sum = |l: Expr| {
        apply(builtin(Builtin::ListFold), vec![natural(), l, natural(), cons(), num(0)])
    };
    assert!(matches!(head(sum(list(vec![num(1), num(2), num(3)]))), Expr::NaturalLit(6)));
    assert!(matches!(head(sum(empty_list(natural()))), Expr::NaturalLit(0)));
    // List/build Natural (λ(list : Type) → λ(cons : …) → λ(nil : list) → cons 1 (cons 2 nil))
    let g = lam(
        "list",
        Expr::Const(Const::Type),
        lam(
            "cons",
            pi("_", natural(), pi("_", var("list"), var("list"))),
            lam(
                "nil",
                var("list"),
                apply(var("cons"), vec![num(1), apply(var("cons"), vec![num(2), var("nil")])]),
            ),
        ),
    );
    let n = normal(apply(builtin(Builtin::ListBuild), vec![natural(), g]));
    assert_eq!(show(&n), show(&list(vec![num(1), num(2)])));
}

#[test]
fn optional_fold_and_build() {
    let just = || lam("x", natural(), op(BinOp::NaturalPlus, var("x"), num(1)));
    let fold = |o: Expr| {
        apply(builtin(Builtin::OptionalFold), vec![natural(), o, natural(), just(), num(0)])
    };
    assert!(matches!(head(fold(Expr::SomeLit(Box::new(num(4))))), Expr::NaturalLit(5)));
    assert!(matches!(
        head(fold(app(builtin(Builtin::OptionalNone), natural()))),
        Expr::NaturalLit(0)
    ));
    let g = lam(
        "optional",
        Expr::Const(Const::Type),
        lam(
            "just",
            pi("_", natural(), var("optional")),
            lam("nothing", var("optional"), app(var("just"), num(8))),
        ),
    );
    let n = normal(apply(builtin(Builtin::OptionalBuild), vec![natural(), g]));
    assert_eq!(show(&n), show(&Expr::SomeLit(Box::new(num(8)))));
}

#[test]
fn annotation_is_dropped() {
    let e = Expr::Annot(Box::new(num(1)), Box::new(natural()));
    assert!(matches!(head(e), Expr::NaturalLit(1)));
}

#[test]
fn bound_variables_may_be_renamed() {
    let a = lam("x", natural(), var("x"));
    let b = lam("y", natural(), var("y"));
    assert!(same(&a, &b));
    assert!(same(&pi("a", natural(), var("a")), &pi("b", natural(), var("b"))));
    assert!(!same(&lam("x", natural(), var("x")), &lam("y", natural(), var("x"))));
    assert!(!same(&lam("x", natural(), var("z")), &lam("y", natural(), var("w"))));
    assert!(same(&lam("x", natural(), var("z")), &lam("y", natural(), var("z"))));
}

#[test]
fn nested_binders_are_matched_by_position() {
    // λ(x) → λ(y) → x  against  λ(y) → λ(x) → y : equal
    let a = lam("x", natural(), lam("y", natural(), var("x")));
    let b = lam("y", natural(), lam("x", natural(), var("y")));
    assert!(same(&a, &b));
    // λ(x) → λ(y) → x  against  λ(y) → λ(x) → x : different
    let c = lam("y", natural(), lam("x", natural(), var("x")));
    assert!(!same(&a, &c));
    // λ(x) → λ(x) → x@1  against  λ(a) → λ(b) → a
    let d = lam("x", natural(), lam("x", natural(), var_at("x", 1)));
    let e = lam("a", natural(), lam("b", natural(), var("a")));
    assert!(same(&d, &e));
}

#[test]
fn variables_are_matched_under_the_binders() {
    let ctx = vec![(name("x"), name("y"))];
    assert!(match_vars(&V(name("x"), 0), &V(name("y"), 0), &ctx));
    assert!(!match_vars(&V(name("x"), 0), &V(name("x"), 0), &ctx));
    assert!(match_vars(&V(name("x"), 1), &V(name("x"), 0), &ctx));
    assert!(match_vars(&V(name("z"), 0), &V(name("z"), 0), &ctx));
    assert!(!match_vars(&V(name("z"), 0), &V(name("z"), 1), &ctx));
    let none: Vec<(String, String)> = Vec::new();
    assert!(match_vars(&V(name("x"), 2), &V(name("x"), 2), &none));
    assert!(!match_vars(&V(name("x"), 2), &V(name("y"), 2), &none));
    // the inner binder hides the outer one on the left only
    let two = vec![(name("z"), name("x")), (name("x"), name("y"))];
    assert!(!match_vars(&V(name("x"), 0), &V(name("x"), 0), &two));
}

#[test]
fn equality_goes_through_the_normal_form() {
    let a = app(lam("x", natural(), op(BinOp::NaturalPlus, var("x"), num(1))), num(1));
    assert_eq!(prop_equal(&a, &num(2), 100), Some(true));
    assert_eq!(prop_equal(&a, &num(3), 100), Some(false));
    assert_eq!(prop_equal(&a, &num(2), 1), None);
}

#[test]
fn records_are_equal_whatever_the_order() {
    let a = record(vec![("a", num(1)), ("b", num(2))]);
    let b = record(vec![("b", num(2)), ("a", num(1))]);
    let c = record(vec![("b", num(1)), ("a", num(2))]);
    let d = record(vec![("a", num(1))]);
    assert!(same(&a, &b));
    assert!(!same(&a, &c));
    assert!(!same(&a, &d));
    assert!(!same(&d, &a));
    let u = |fs: Vec<(&str, Option<Expr>)>| {
        Expr::UnionType(fs.into_iter().map(|(l, e)| (name(l), e)).collect())
    };
    assert!(same(
        &u(vec![("A", None), ("B", Some(natural()))]),
        &u(vec![("B", Some(natural())), ("A", None)])
    ));
    assert!(!same(&u(vec![("A", None)]), &u(vec![("A", Some(natural()))])));
}

#[test]
fn doubles_are_compared_by_their_bits() {
    let nan = f64::NAN.to_bits();
    assert!(same(&Expr::DoubleLit(nan), &Expr::DoubleLit(nan)));
    assert!(!same(&Expr::DoubleLit(0.0f64.to_bits()), &Expr::DoubleLit((-0.0f64).to_bits())));
    assert!(same(&Expr::DoubleLit(1.5f64.to_bits()), &Expr::DoubleLit(1.5f64.to_bits())));
}

#[test]
fn a_renamed_function_is_equal_to_itself() {
    // λ(x : Natural) → λ(z : Natural) → x + z + w, with x renamed to y
    let body = lam(
        "z",
        natural(),
        op(BinOp::NaturalPlus, op(BinOp::NaturalPlus, var("x"), var("z")), var("w")),
    );
    let e = lam("x", natural(), body);
    let renamed = rename(&e, &name("y")).unwrap();
    let expected = lam(
        "y",
        natural(),
        lam(
            "z",
            natural(),
            op(BinOp::NaturalPlus, op(BinOp::NaturalPlus, var("y"), var("z")), var("w")),
        ),
    );
    assert_eq!(renamed, expected);
    assert!(same(&e, &renamed));
    assert_eq!(prop_equal(&e, &renamed, 64), Some(true));
    // a name that is not fresh may change the meaning
    let captured = rename(&lam("x", natural(), var("w")), &name("w")).unwrap();
    assert!(!same(&lam("x", natural(), var("w")), &captured));
    assert!(rename(&num(1), &name("y")).is_none());
    let pi_type = pi("a", natural(), var("a"));
    assert!(same(&pi_type, &rename(&pi_type, &name("b")).unwrap()));
}
