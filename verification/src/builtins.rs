//! The names and the types of the built-ins.

use vstd::prelude::*;
use vstd::string::*;
use crate::normalize::{list_of, mk_list_of, mk_name, mk_optional_of, mk_var, optional_of};
use crate::syntax::{fields_of, Builtin, Const, Expr, Term};

verus! {

/// `∀(x : a) → b`
pub open spec fn pi(x: &str, a: Term, b: Term) -> Term {
    Term::Pi(x@, Box::new(a), Box::new(b))
}

/// `a → b`
pub open spec fn arrow(a: Term, b: Term) -> Term {
    pi("_", a, b)
}

/// The variable `x`.
pub open spec fn var(x: &str) -> Term {
    Term::Var(x@, 0)
}

/// The type named by the built-in `b`.
pub open spec fn named(b: Builtin) -> Term {
    Term::Builtin(b)
}

/// `∀(x : Type) → ∀(f : a → x) → ∀(z : x) → x` for `Natural/fold` and
/// `Optional/fold`, where `a` is what `f` takes.
pub open spec fn church(x: &str, f: &str, z: &str, a: Term) -> Term {
    pi(x, Term::Const(Const::Type), pi(f, arrow(a, var(x)), pi(z, var(x), var(x))))
}

/// `∀(list : Type) → ∀(cons : a → list → list) → ∀(nil : list) → list`
pub open spec fn church_list() -> Term {
    pi(
        "list",
        Term::Const(Const::Type),
        pi(
            "cons",
            arrow(var("a"), arrow(var("list"), var("list"))),
            pi("nil", var("list"), var("list")),
        ),
    )
}

/// `{ index : Natural, value : a }`
pub open spec fn indexed_row() -> Term {
    Term::RecordType(seq![("index"@, named(Builtin::Natural)), ("value"@, var("a"))])
}

/// The type of each built-in, as an expression.
pub open spec fn spec_type_of_builtin(b: Builtin) -> Term {
    let ty = Term::Const(Const::Type);
    let natural = named(Builtin::Natural);
    match b {
        Builtin::Bool | Builtin::Natural | Builtin::Integer | Builtin::Double | Builtin::Text => ty,
        Builtin::List | Builtin::Optional => arrow(ty, ty),
        Builtin::NaturalFold => arrow(natural, church("natural", "succ", "zero", var("natural"))),
        Builtin::NaturalBuild => arrow(
            church("natural", "succ", "zero", var("natural")),
            natural,
        ),
        Builtin::NaturalIsZero | Builtin::NaturalEven | Builtin::NaturalOdd => arrow(
            natural,
            named(Builtin::Bool),
        ),
        Builtin::NaturalToInteger => arrow(natural, named(Builtin::Integer)),
        Builtin::NaturalShow => arrow(natural, named(Builtin::Text)),
        Builtin::NaturalSubtract => arrow(natural, arrow(natural, natural)),
        Builtin::IntegerToDouble => arrow(named(Builtin::Integer), named(Builtin::Double)),
        Builtin::IntegerShow => arrow(named(Builtin::Integer), named(Builtin::Text)),
        Builtin::DoubleShow => arrow(named(Builtin::Double), named(Builtin::Text)),
        Builtin::TextShow => arrow(named(Builtin::Text), named(Builtin::Text)),
        Builtin::ListBuild => pi("a", ty, arrow(church_list(), list_of(var("a")))),
        Builtin::ListFold => pi("a", ty, arrow(list_of(var("a")), church_list())),
        Builtin::ListLength => pi("a", ty, arrow(list_of(var("a")), natural)),
        Builtin::ListHead | Builtin::ListLast => pi(
            "a",
            ty,
            arrow(list_of(var("a")), optional_of(var("a"))),
        ),
        Builtin::ListIndexed => pi("a", ty, arrow(list_of(var("a")), list_of(indexed_row()))),
        Builtin::ListReverse => pi("a", ty, arrow(list_of(var("a")), list_of(var("a")))),
        Builtin::OptionalBuild => pi(
            "a",
            ty,
            arrow(church("optional", "just", "nothing", var("a")), optional_of(var("a"))),
        ),
        Builtin::OptionalFold => pi(
            "a",
            ty,
            arrow(optional_of(var("a")), church("optional", "just", "nothing", var("a"))),
        ),
        Builtin::OptionalNone => pi("a", ty, optional_of(var("a"))),
        Builtin::OptionalSome => pi("a", ty, arrow(var("a"), optional_of(var("a")))),
    }
}

fn mk_pi(x: &str, a: Expr, b: Expr) -> (r: Expr)
    ensures
        r@ == pi(x, a@, b@),
{
    Expr::Pi(mk_name(x), Box::new(a), Box::new(b))
}

fn mk_arrow(a: Expr, b: Expr) -> (r: Expr)
    ensures
        r@ == arrow(a@, b@),
{
    mk_pi("_", a, b)
}

fn mk_named(b: Builtin) -> (r: Expr)
    ensures
        r@ == named(b),
{
    Expr::Builtin(b)
}

fn mk_type() -> (r: Expr)
    ensures
        r@ == Term::Const(Const::Type),
{
    Expr::Const(Const::Type)
}

fn mk_church(x: &str, f: &str, z: &str, a: Expr) -> (r: Expr)
    ensures
        r@ == church(x, f, z, a@),
{
    mk_pi(x, mk_type(), mk_pi(f, mk_arrow(a, mk_var(x)), mk_pi(z, mk_var(x), mk_var(x))))
}

fn mk_church_list() -> (r: Expr)
    ensures
        r@ == church_list(),
{
    mk_pi(
        "list",
        mk_type(),
        mk_pi(
            "cons",
            mk_arrow(mk_var("a"), mk_arrow(mk_var("list"), mk_var("list"))),
            mk_pi("nil", mk_var("list"), mk_var("list")),
        ),
    )
}

fn mk_indexed_row() -> (r: Expr)
    ensures
        r@ == indexed_row(),
{
    let mut fs: Vec<(String, Expr)> = Vec::new();
    fs.push((mk_name("index"), mk_named(Builtin::Natural)));
    fs.push((mk_name("value"), mk_var("a")));
    assert(fields_of(fs) =~= seq![("index"@, named(Builtin::Natural)), ("value"@, var("a"))]);
    Expr::RecordType(fs)
}

/// The type of the built-in `b`, as an expression.
pub fn type_of_builtin(b: Builtin) -> (r: Expr)
    ensures
        r@ == spec_type_of_builtin(b),
{
    match b {
        Builtin::Bool | Builtin::Natural | Builtin::Integer | Builtin::Double
        | Builtin::Text => mk_type(),
        Builtin::List | Builtin::Optional => mk_arrow(mk_type(), mk_type()),
        Builtin::NaturalFold => mk_arrow(
            mk_named(Builtin::Natural),
            mk_church("natural", "succ", "zero", mk_var("natural")),
        ),
        Builtin::NaturalBuild => mk_arrow(
            mk_church("natural", "succ", "zero", mk_var("natural")),
            mk_named(Builtin::Natural),
        ),
        Builtin::NaturalIsZero | Builtin::NaturalEven | Builtin::NaturalOdd => mk_arrow(
            mk_named(Builtin::Natural),
            mk_named(Builtin::Bool),
        ),
        Builtin::NaturalToInteger => mk_arrow(
            mk_named(Builtin::Natural),
            mk_named(Builtin::Integer),
        ),
        Builtin::NaturalShow => mk_arrow(mk_named(Builtin::Natural), mk_named(Builtin::Text)),
        Builtin::NaturalSubtract => mk_arrow(
            mk_named(Builtin::Natural),
            mk_arrow(mk_named(Builtin::Natural), mk_named(Builtin::Natural)),
        ),
        Builtin::IntegerToDouble => mk_arrow(
            mk_named(Builtin::Integer),
            mk_named(Builtin::Double),
        ),
        Builtin::IntegerShow => mk_arrow(mk_named(Builtin::Integer), mk_named(Builtin::Text)),
        Builtin::DoubleShow => mk_arrow(mk_named(Builtin::Double), mk_named(Builtin::Text)),
        Builtin::TextShow => mk_arrow(mk_named(Builtin::Text), mk_named(Builtin::Text)),
        Builtin::ListBuild => mk_pi(
            "a",
            mk_type(),
            mk_arrow(mk_church_list(), mk_list_of(mk_var("a"))),
        ),
        Builtin::ListFold => mk_pi(
            "a",
            mk_type(),
            mk_arrow(mk_list_of(mk_var("a")), mk_church_list()),
        ),
        Builtin::ListLength => mk_pi(
            "a",
            mk_type(),
            mk_arrow(mk_list_of(mk_var("a")), mk_named(Builtin::Natural)),
        ),
        Builtin::ListHead | Builtin::ListLast => mk_pi(
            "a",
            mk_type(),
            mk_arrow(mk_list_of(mk_var("a")), mk_optional_of(mk_var("a"))),
        ),
        Builtin::ListIndexed => mk_pi(
            "a",
            mk_type(),
            mk_arrow(mk_list_of(mk_var("a")), mk_list_of(mk_indexed_row())),
        ),
        Builtin::ListReverse => mk_pi(
            "a",
            mk_type(),
            mk_arrow(mk_list_of(mk_var("a")), mk_list_of(mk_var("a"))),
        ),
        Builtin::OptionalBuild => mk_pi(
            "a",
            mk_type(),
            mk_arrow(
                mk_church("optional", "just", "nothing", mk_var("a")),
                mk_optional_of(mk_var("a")),
            ),
        ),
        Builtin::OptionalFold => mk_pi(
            "a",
            mk_type(),
            mk_arrow(
                mk_optional_of(mk_var("a")),
                mk_church("optional", "just", "nothing", mk_var("a")),
            ),
        ),
        Builtin::OptionalNone => mk_pi("a", mk_type(), mk_optional_of(mk_var("a"))),
        Builtin::OptionalSome => mk_pi(
            "a",
            mk_type(),
            mk_arrow(mk_var("a"), mk_optional_of(mk_var("a"))),
        ),
    }
}

/// The built-in that `s` names, if it names one.
pub open spec fn spec_parse(s: Seq<char>) -> Option<Builtin> {
    if s == "Bool"@ {
        Some(Builtin::Bool)
    } else if s == "Natural"@ {
        Some(Builtin::Natural)
    } else if s == "Integer"@ {
        Some(Builtin::Integer)
    } else if s == "Double"@ {
        Some(Builtin::Double)
    } else if s == "Text"@ {
        Some(Builtin::Text)
    } else if s == "List"@ {
        Some(Builtin::List)
    } else if s == "Optional"@ {
        Some(Builtin::Optional)
    } else if s == "Some"@ {
        Some(Builtin::OptionalSome)
    } else if s == "None"@ {
        Some(Builtin::OptionalNone)
    } else if s == "Natural/build"@ {
        Some(Builtin::NaturalBuild)
    } else if s == "Natural/fold"@ {
        Some(Builtin::NaturalFold)
    } else if s == "Natural/isZero"@ {
        Some(Builtin::NaturalIsZero)
    } else if s == "Natural/even"@ {
        Some(Builtin::NaturalEven)
    } else if s == "Natural/odd"@ {
        Some(Builtin::NaturalOdd)
    } else if s == "Natural/toInteger"@ {
        Some(Builtin::NaturalToInteger)
    } else if s == "Natural/show"@ {
        Some(Builtin::NaturalShow)
    } else if s == "Natural/subtract"@ {
        Some(Builtin::NaturalSubtract)
    } else if s == "Integer/toDouble"@ {
        Some(Builtin::IntegerToDouble)
    } else if s == "Integer/show"@ {
        Some(Builtin::IntegerShow)
    } else if s == "Double/show"@ {
        Some(Builtin::DoubleShow)
    } else if s == "List/build"@ {
        Some(Builtin::ListBuild)
    } else if s == "List/fold"@ {
        Some(Builtin::ListFold)
    } else if s == "List/length"@ {
        Some(Builtin::ListLength)
    } else if s == "List/head"@ {
        Some(Builtin::ListHead)
    } else if s == "List/last"@ {
        Some(Builtin::ListLast)
    } else if s == "List/indexed"@ {
        Some(Builtin::ListIndexed)
    } else if s == "List/reverse"@ {
        Some(Builtin::ListReverse)
    } else if s == "Optional/fold"@ {
        Some(Builtin::OptionalFold)
    } else if s == "Optional/build"@ {
        Some(Builtin::OptionalBuild)
    } else if s == "Text/show"@ {
        Some(Builtin::TextShow)
    } else {
        None
    }
}

fn is(s: &String, name: &str) -> (r: bool)
    ensures
        r == (s@ == name@),
{
    let n = String::from_str(name);
    *s == n
}

impl Builtin {
    /// The built-in that `s` names.
    pub fn parse(s: &str) -> (r: Option<Builtin>)
        ensures
            r == spec_parse(s@),
    {
        let s = String::from_str(s);
        if is(&s, "Bool") {
            Some(Builtin::Bool)
        } else if is(&s, "Natural") {
            Some(Builtin::Natural)
        } else if is(&s, "Integer") {
            Some(Builtin::Integer)
        } else if is(&s, "Double") {
            Some(Builtin::Double)
        } else if is(&s, "Text") {
            Some(Builtin::Text)
        } else if is(&s, "List") {
            Some(Builtin::List)
        } else if is(&s, "Optional") {
            Some(Builtin::Optional)
        } else if is(&s, "Some") {
            Some(Builtin::OptionalSome)
        } else if is(&s, "None") {
            Some(Builtin::OptionalNone)
        } else if is(&s, "Natural/build") {
            Some(Builtin::NaturalBuild)
        } else if is(&s, "Natural/fold") {
            Some(Builtin::NaturalFold)
        } else if is(&s, "Natural/isZero") {
            Some(Builtin::NaturalIsZero)
        } else if is(&s, "Natural/even") {
            Some(Builtin::NaturalEven)
        } else if is(&s, "Natural/odd") {
            Some(Builtin::NaturalOdd)
        } else if is(&s, "Natural/toInteger") {
            Some(Builtin::NaturalToInteger)
        } else if is(&s, "Natural/show") {
            Some(Builtin::NaturalShow)
        } else if is(&s, "Natural/subtract") {
            Some(Builtin::NaturalSubtract)
        } else if is(&s, "Integer/toDouble") {
            Some(Builtin::IntegerToDouble)
        } else if is(&s, "Integer/show") {
            Some(Builtin::IntegerShow)
        } else if is(&s, "Double/show") {
            Some(Builtin::DoubleShow)
        } else if is(&s, "List/build") {
            Some(Builtin::ListBuild)
        } else if is(&s, "List/fold") {
            Some(Builtin::ListFold)
        } else if is(&s, "List/length") {
            Some(Builtin::ListLength)
        } else if is(&s, "List/head") {
            Some(Builtin::ListHead)
        } else if is(&s, "List/last") {
            Some(Builtin::ListLast)
        } else if is(&s, "List/indexed") {
            Some(Builtin::ListIndexed)
        } else if is(&s, "List/reverse") {
            Some(Builtin::ListReverse)
        } else if is(&s, "Optional/fold") {
            Some(Builtin::OptionalFold)
        } else if is(&s, "Optional/build") {
            Some(Builtin::OptionalBuild)
        } else if is(&s, "Text/show") {
            Some(Builtin::TextShow)
        } else {
            None
        }
    }
}

} // verus!
