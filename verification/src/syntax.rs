//! The expression tree, its mathematical model, and the closed enumerations
//! (universes, built-ins, binary operators) that both share.

use vstd::prelude::*;
use vstd::string::*;

verus! {

/// The three universes. `Type : Kind : Sort`, and `Sort` has no type.
#[derive(Clone, Copy, Debug, PartialEq, Eq, Structural)]
pub enum Const {
    Type,
    Kind,
    Sort,
}

/// The closed set of built-in names.
#[derive(Clone, Copy, Debug, PartialEq, Eq, Structural)]
pub enum Builtin {
    Bool,
    Natural,
    Integer,
    Double,
    Text,
    List,
    Optional,
    OptionalSome,
    OptionalNone,
    NaturalBuild,
    NaturalFold,
    NaturalIsZero,
    NaturalEven,
    NaturalOdd,
    NaturalToInteger,
    NaturalShow,
    NaturalSubtract,
    IntegerToDouble,
    IntegerShow,
    DoubleShow,
    ListBuild,
    ListFold,
    ListLength,
    ListHead,
    ListLast,
    ListIndexed,
    ListReverse,
    OptionalFold,
    OptionalBuild,
    TextShow,
}

/// The binary operators of a resolved expression.
#[derive(Clone, Copy, Debug, PartialEq, Eq, Structural)]
pub enum BinOp {
    /// `x || y`
    BoolOr,
    /// `x + y`
    NaturalPlus,
    /// `x ++ y`
    TextAppend,
    /// `x # y`
    ListAppend,
    /// `x && y`
    BoolAnd,
    /// `x ∧ y`
    RecursiveRecordMerge,
    /// `x ⫽ y`
    RightBiasedRecordMerge,
    /// `x ⩓ y`
    RecursiveRecordTypeMerge,
    /// `x * y`
    NaturalTimes,
    /// `x == y`
    BoolEQ,
    /// `x != y`
    BoolNE,
    /// `x ≡ y`
    Equivalence,
}

/// The model of a label: its characters.
pub type Name = Seq<char>;

/// The model of a list of labelled sub-expressions, in source order.
pub type Fields = Seq<(Name, Term)>;

/// The model of the alternatives of a union type, in source order.
pub type Alternatives = Seq<(Name, Option<Term>)>;

/// The mathematical model of an expression.
///
/// A variable is a name and an index: the index counts, from the innermost
/// scope outward, how many binders of the same name to skip. Records and
/// unions keep their entries in source order; the functions that give them
/// a meaning treat them as mappings from label to entry.
pub enum Term {
    Const(Const),
    Var(Name, u64),
    Lam(Name, Box<Term>, Box<Term>),
    Pi(Name, Box<Term>, Box<Term>),
    App(Box<Term>, Box<Term>),
    Let(Name, Option<Box<Term>>, Box<Term>, Box<Term>),
    Annot(Box<Term>, Box<Term>),
    Assert(Box<Term>),
    Builtin(Builtin),
    BoolLit(bool),
    NaturalLit(u64),
    IntegerLit(i64),
    /// A double, by its bit pattern.
    DoubleLit(u64),
    /// The interpolations, each with the text in front of it, and the text
    /// after the last one.
    TextLit(Fields, Name),
    BinOp(BinOp, Box<Term>, Box<Term>),
    BoolIf(Box<Term>, Box<Term>, Box<Term>),
    EmptyListLit(Box<Term>),
    /// The first element and the others.
    NEListLit(Box<Term>, Seq<Term>),
    SomeLit(Box<Term>),
    RecordType(Fields),
    RecordLit(Fields),
    UnionType(Alternatives),
    Merge(Box<Term>, Box<Term>, Option<Box<Term>>),
    Field(Box<Term>, Name),
    Projection(Box<Term>, Seq<Name>),
}

/// A variable: a label and an index.
#[derive(Debug, PartialEq, Eq)]
pub struct V(pub String, pub u64);

/// An expression in which no import is left.
///
/// Doubles are held by their bit pattern, so that two literals are equal
/// exactly when their bits are. A non-empty list holds its first element
/// apart from the others.
#[derive(Debug, PartialEq, Eq)]
pub enum Expr {
    Const(Const),
    Var(V),
    Lam(String, Box<Expr>, Box<Expr>),
    Pi(String, Box<Expr>, Box<Expr>),
    App(Box<Expr>, Box<Expr>),
    Let(String, Option<Box<Expr>>, Box<Expr>, Box<Expr>),
    Annot(Box<Expr>, Box<Expr>),
    Assert(Box<Expr>),
    Builtin(Builtin),
    BoolLit(bool),
    NaturalLit(u64),
    IntegerLit(i64),
    DoubleLit(u64),
    TextLit(Vec<(String, Expr)>, String),
    BinOp(BinOp, Box<Expr>, Box<Expr>),
    BoolIf(Box<Expr>, Box<Expr>, Box<Expr>),
    EmptyListLit(Box<Expr>),
    NEListLit(Box<Expr>, Vec<Expr>),
    SomeLit(Box<Expr>),
    RecordType(Vec<(String, Expr)>),
    RecordLit(Vec<(String, Expr)>),
    UnionType(Vec<(String, Option<Expr>)>),
    Merge(Box<Expr>, Box<Expr>, Option<Box<Expr>>),
    Field(Box<Expr>, String),
    Projection(Box<Expr>, Vec<String>),
}

/// The model of an optional boxed expression.
pub open spec fn opt_box_term_of(o: Option<Box<Expr>>) -> Option<Box<Term>> {
    match o {
        Some(e) => Some(Box::new(term_of(*e))),
        None => None,
    }
}

/// The model of an optional expression.
pub open spec fn opt_term_of(o: Option<Expr>) -> Option<Term> {
    match o {
        Some(e) => Some(term_of(e)),
        None => None,
    }
}

/// The model of a list of labelled expressions.
pub open spec fn fields_of(fs: Vec<(String, Expr)>) -> Fields
    decreases fs,
{
    Seq::new(
        fs.len() as nat,
        |i: int|
            if 0 <= i < fs.len() {
                (fs[i].0@, term_of(fs[i].1))
            } else {
                (Seq::empty(), Term::BoolLit(false))
            },
    )
}

/// The model of a list of expressions.
pub open spec fn terms_of(es: Vec<Expr>) -> Seq<Term>
    decreases es,
{
    Seq::new(
        es.len() as nat,
        |i: int|
            if 0 <= i < es.len() {
                term_of(es[i])
            } else {
                Term::BoolLit(false)
            },
    )
}

/// The model of the alternatives of a union type.
pub open spec fn alternatives_of(fs: Vec<(String, Option<Expr>)>) -> Alternatives
    decreases fs,
{
    Seq::new(
        fs.len() as nat,
        |i: int|
            if 0 <= i < fs.len() {
                (
                    fs[i].0@,
                    match fs[i].1 {
                        Some(e) => Some(term_of(e)),
                        None => None,
                    },
                )
            } else {
                (Seq::empty(), None)
            },
    )
}

/// The model of a list of labels.
pub open spec fn names_of(ls: Vec<String>) -> Seq<Name> {
    Seq::new(ls.len() as nat, |i: int| ls[i]@)
}

/// The model of an expression.
pub open spec fn term_of(e: Expr) -> Term
    decreases e,
{
    match e {
        Expr::Const(c) => Term::Const(c),
        Expr::Var(v) => Term::Var(v.0@, v.1),
        Expr::Lam(x, t, b) => Term::Lam(x@, Box::new(term_of(*t)), Box::new(term_of(*b))),
        Expr::Pi(x, t, b) => Term::Pi(x@, Box::new(term_of(*t)), Box::new(term_of(*b))),
        Expr::App(f, a) => Term::App(Box::new(term_of(*f)), Box::new(term_of(*a))),
        Expr::Let(x, t, v, b) => Term::Let(
            x@,
            match t {
                Some(t0) => Some(Box::new(term_of(*t0))),
                None => None,
            },
            Box::new(term_of(*v)),
            Box::new(term_of(*b)),
        ),
        Expr::Annot(a, t) => Term::Annot(Box::new(term_of(*a)), Box::new(term_of(*t))),
        Expr::Assert(a) => Term::Assert(Box::new(term_of(*a))),
        Expr::Builtin(b) => Term::Builtin(b),
        Expr::BoolLit(b) => Term::BoolLit(b),
        Expr::NaturalLit(n) => Term::NaturalLit(n),
        Expr::IntegerLit(n) => Term::IntegerLit(n),
        Expr::DoubleLit(n) => Term::DoubleLit(n),
        Expr::TextLit(chunks, tail) => Term::TextLit(fields_of(chunks), tail@),
        Expr::BinOp(o, l, r) => Term::BinOp(o, Box::new(term_of(*l)), Box::new(term_of(*r))),
        Expr::BoolIf(c, t, f) => Term::BoolIf(
            Box::new(term_of(*c)),
            Box::new(term_of(*t)),
            Box::new(term_of(*f)),
        ),
        Expr::EmptyListLit(t) => Term::EmptyListLit(Box::new(term_of(*t))),
        Expr::NEListLit(x, xs) => Term::NEListLit(Box::new(term_of(*x)), terms_of(xs)),
        Expr::SomeLit(x) => Term::SomeLit(Box::new(term_of(*x))),
        Expr::RecordType(fs) => Term::RecordType(fields_of(fs)),
        Expr::RecordLit(fs) => Term::RecordLit(fields_of(fs)),
        Expr::UnionType(fs) => Term::UnionType(alternatives_of(fs)),
        Expr::Merge(r, u, t) => Term::Merge(
            Box::new(term_of(*r)),
            Box::new(term_of(*u)),
            match t {
                Some(t0) => Some(Box::new(term_of(*t0))),
                None => None,
            },
        ),
        Expr::Field(r, x) => Term::Field(Box::new(term_of(*r)), x@),
        Expr::Projection(r, ls) => Term::Projection(Box::new(term_of(*r)), names_of(ls)),
    }
}

impl View for Expr {
    type V = Term;

    open spec fn view(&self) -> Term {
        term_of(*self)
    }
}

/// A copy of a label.
pub fn clone_name(x: &String) -> (r: String)
    ensures
        r@ == x@,
{
    x.clone()
}

/// A copy of a variable.
pub fn clone_var(v: &V) -> (r: V)
    ensures
        r.0@ == v.0@,
        r.1 == v.1,
{
    V(v.0.clone(), v.1)
}

/// A copy of a list of labels.
pub fn clone_names(ls: &Vec<String>) -> (r: Vec<String>)
    ensures
        names_of(r) == names_of(*ls),
{
    let mut out: Vec<String> = Vec::new();
    let mut i: usize = 0;
    while i < ls.len()
        invariant
            i <= ls.len(),
            out.len() == i,
            forall|j: int| 0 <= j < i ==> out[j]@ == ls[j]@,
        decreases ls.len() - i,
    {
        out.push(ls[i].clone());
        i += 1;
    }
    assert(names_of(out) =~= names_of(*ls));
    out
}

/// A copy of an optional boxed expression.
pub fn clone_opt_box(o: &Option<Box<Expr>>) -> (r: Option<Box<Expr>>)
    ensures
        opt_box_term_of(r) == opt_box_term_of(*o),
    decreases o,
{
    match o {
        Some(e) => Some(Box::new(clone_expr(e))),
        None => None,
    }
}

/// A copy of a list of labelled expressions.
pub fn clone_fields(fs: &Vec<(String, Expr)>) -> (r: Vec<(String, Expr)>)
    ensures
        fields_of(r) == fields_of(*fs),
    decreases fs,
{
    let mut out: Vec<(String, Expr)> = Vec::new();
    let mut i: usize = 0;
    while i < fs.len()
        invariant
            i <= fs.len(),
            out.len() == i,
            forall|j: int| 0 <= j < i ==> out[j].0@ == fs[j].0@ && out[j].1@ == fs[j].1@,
        decreases fs.len() - i,
    {
        proof {
            assert(decreases_to!(*fs => fs[i as int]));
            assert(decreases_to!(fs[i as int] => fs[i as int].1));
        }
        let c = clone_expr(&fs[i].1);
        out.push((fs[i].0.clone(), c));
        i += 1;
    }
    assert(fields_of(out) =~= fields_of(*fs));
    out
}

/// A copy of a list of expressions.
pub fn clone_terms(es: &Vec<Expr>) -> (r: Vec<Expr>)
    ensures
        terms_of(r) == terms_of(*es),
    decreases es,
{
    let mut out: Vec<Expr> = Vec::new();
    let mut i: usize = 0;
    while i < es.len()
        invariant
            i <= es.len(),
            out.len() == i,
            forall|j: int| 0 <= j < i ==> out[j]@ == es[j]@,
        decreases es.len() - i,
    {
        let c = clone_expr(&es[i]);
        out.push(c);
        i += 1;
    }
    assert(terms_of(out) =~= terms_of(*es));
    out
}

/// A copy of the alternatives of a union type.
pub fn clone_alternatives(fs: &Vec<(String, Option<Expr>)>) -> (r: Vec<(String, Option<Expr>)>)
    ensures
        alternatives_of(r) == alternatives_of(*fs),
    decreases fs,
{
    let mut out: Vec<(String, Option<Expr>)> = Vec::new();
    let mut i: usize = 0;
    while i < fs.len()
        invariant
            i <= fs.len(),
            out.len() == i,
            forall|j: int|
                0 <= j < i ==> out[j].0@ == fs[j].0@ && opt_term_of(out[j].1) == opt_term_of(
                    fs[j].1,
                ),
        decreases fs.len() - i,
    {
        let c = match &fs[i].1 {
            Some(e) => {
                proof {
                    assert(decreases_to!(*fs => fs[i as int]));
                    assert(decreases_to!(fs[i as int] => fs[i as int].1));
                    assert(decreases_to!(fs[i as int].1 => fs[i as int].1->Some_0));
                }
                Some(clone_expr(e))
            },
            None => None,
        };
        out.push((fs[i].0.clone(), c));
        i += 1;
    }
    assert(alternatives_of(out) =~= alternatives_of(*fs));
    out
}

/// A copy of an expression.
pub fn clone_expr(e: &Expr) -> (r: Expr)
    ensures
        r@ == e@,
    decreases e,
{
    match e {
        Expr::Const(c) => Expr::Const(*c),
        Expr::Var(v) => Expr::Var(clone_var(v)),
        Expr::Lam(x, t, b) => Expr::Lam(
            x.clone(),
            Box::new(clone_expr(t)),
            Box::new(clone_expr(b)),
        ),
        Expr::Pi(x, t, b) => Expr::Pi(x.clone(), Box::new(clone_expr(t)), Box::new(clone_expr(b))),
        Expr::App(f, a) => Expr::App(Box::new(clone_expr(f)), Box::new(clone_expr(a))),
        Expr::Let(x, t, v, b) => Expr::Let(
            x.clone(),
            clone_opt_box(t),
            Box::new(clone_expr(v)),
            Box::new(clone_expr(b)),
        ),
        Expr::Annot(a, t) => Expr::Annot(Box::new(clone_expr(a)), Box::new(clone_expr(t))),
        Expr::Assert(a) => Expr::Assert(Box::new(clone_expr(a))),
        Expr::Builtin(b) => Expr::Builtin(*b),
        Expr::BoolLit(b) => Expr::BoolLit(*b),
        Expr::NaturalLit(n) => Expr::NaturalLit(*n),
        Expr::IntegerLit(n) => Expr::IntegerLit(*n),
        Expr::DoubleLit(n) => Expr::DoubleLit(*n),
        Expr::TextLit(chunks, tail) => Expr::TextLit(clone_fields(chunks), tail.clone()),
        Expr::BinOp(o, l, r) => Expr::BinOp(*o, Box::new(clone_expr(l)), Box::new(clone_expr(r))),
        Expr::BoolIf(c, t, f) => Expr::BoolIf(
            Box::new(clone_expr(c)),
            Box::new(clone_expr(t)),
            Box::new(clone_expr(f)),
        ),
        Expr::EmptyListLit(t) => Expr::EmptyListLit(Box::new(clone_expr(t))),
        Expr::NEListLit(x, xs) => Expr::NEListLit(Box::new(clone_expr(x)), clone_terms(xs)),
        Expr::SomeLit(x) => Expr::SomeLit(Box::new(clone_expr(x))),
        Expr::RecordType(fs) => Expr::RecordType(clone_fields(fs)),
        Expr::RecordLit(fs) => Expr::RecordLit(clone_fields(fs)),
        Expr::UnionType(fs) => Expr::UnionType(clone_alternatives(fs)),
        Expr::Merge(r, u, t) => Expr::Merge(
            Box::new(clone_expr(r)),
            Box::new(clone_expr(u)),
            clone_opt_box(t),
        ),
        Expr::Field(r, x) => Expr::Field(Box::new(clone_expr(r)), x.clone()),
        Expr::Projection(r, ls) => Expr::Projection(Box::new(clone_expr(r)), clone_names(ls)),
    }
}

} // verus!
