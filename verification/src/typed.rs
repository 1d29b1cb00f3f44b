//! Values with their types.

use vstd::prelude::*;
use crate::normalize::{spec_whnf, whnf};
use crate::syntax::{clone_expr, Const, Expr, Name, Term};
use crate::var::{shift_from, spec_shift, spec_subst_shift, subst_from};

verus! {

/// The model of a `TypedValue`.
pub enum TypedTerm {
    /// A universe.
    Const(Const),
    /// A value and its type.
    Typed(Term, Box<TypedTerm>),
    /// A value that was not checked, and has no type.
    Untyped(Term),
}

/// An expression that has been checked, with its type, which is a checked
/// value in turn. The chain ends in a universe, whose type is the next
/// universe, and `Sort` has none.
///
/// The value is the expression with every `let` replaced by what it
/// binds: its free variables are those that a function or a function type
/// binds around it.
///
/// `Untyped` holds an expression that was taken on trust: the checker
/// never makes one, and asking for its type is an error.
#[derive(Debug, PartialEq, Eq)]
pub enum TypedValue {
    Const(Const),
    Typed(Expr, Box<TypedValue>),
    Untyped(Expr),
}

/// The model of a typed value.
pub open spec fn typed_of(tv: TypedValue) -> TypedTerm
    decreases tv,
{
    match tv {
        TypedValue::Const(c) => TypedTerm::Const(c),
        TypedValue::Typed(e, t) => TypedTerm::Typed(e@, Box::new(typed_of(*t))),
        TypedValue::Untyped(e) => TypedTerm::Untyped(e@),
    }
}

impl View for TypedValue {
    type V = TypedTerm;

    open spec fn view(&self) -> TypedTerm {
        typed_of(*self)
    }
}

/// The value of a typed term, as a term.
pub open spec fn value_of(tv: TypedTerm) -> Term {
    match tv {
        TypedTerm::Const(c) => Term::Const(c),
        TypedTerm::Typed(v, _) => v,
        TypedTerm::Untyped(v) => v,
    }
}

/// The type of a universe: the next one up, and none for `Sort`.
pub open spec fn spec_type_of_const(c: Const) -> Option<Const> {
    match c {
        Const::Type => Some(Const::Kind),
        Const::Kind => Some(Const::Sort),
        Const::Sort => None,
    }
}

/// The type of a typed term; `None` for `Sort` and for a value that was
/// not checked, which have no type.
pub open spec fn spec_get_type(tv: TypedTerm) -> Option<TypedTerm> {
    match tv {
        TypedTerm::Const(c) => match spec_type_of_const(c) {
            Some(k) => Some(TypedTerm::Const(k)),
            None => None,
        },
        TypedTerm::Typed(_, t) => Some(*t),
        TypedTerm::Untyped(_) => None,
    }
}

/// The universe that a typed term is: the one its value reduces to within
/// the budget `f`, if it reduces to one. The outer `None` is for a budget
/// that does not reach the weak head normal form.
pub open spec fn spec_as_const(f: nat, tv: TypedTerm) -> Option<Option<Const>> {
    match tv {
        TypedTerm::Const(c) => Some(Some(c)),
        _ => match spec_whnf(f, value_of(tv)) {
            Some(Term::Const(c)) => Some(Some(c)),
            Some(_) => Some(None),
            None => None,
        },
    }
}

/// `spec_shift` on a value and on its type.
pub open spec fn spec_shift_typed(d: int, x: Name, n: nat, tv: TypedTerm) -> Option<TypedTerm>
    decreases tv,
{
    match tv {
        TypedTerm::Const(c) => Some(tv),
        TypedTerm::Typed(v, t) => match (spec_shift(d, x, n, v), spec_shift_typed(d, x, n, *t)) {
            (Some(v2), Some(t2)) => Some(TypedTerm::Typed(v2, Box::new(t2))),
            _ => None,
        },
        TypedTerm::Untyped(v) => match spec_shift(d, x, n, v) {
            Some(v2) => Some(TypedTerm::Untyped(v2)),
            None => None,
        },
    }
}

/// `spec_subst_shift` on a value and on its type.
pub open spec fn spec_subst_typed(x: Name, n: nat, val: Term, tv: TypedTerm) -> Option<TypedTerm>
    decreases tv,
{
    match tv {
        TypedTerm::Const(c) => Some(tv),
        TypedTerm::Typed(v, t) => match (
            spec_subst_shift(x, n, val, v),
            spec_subst_typed(x, n, val, *t),
        ) {
            (Some(v2), Some(t2)) => Some(TypedTerm::Typed(v2, Box::new(t2))),
            _ => None,
        },
        TypedTerm::Untyped(v) => match spec_subst_shift(x, n, val, v) {
            Some(v2) => Some(TypedTerm::Untyped(v2)),
            None => None,
        },
    }
}

impl TypedValue {
    /// The universe `c` as a typed value.
    pub fn from_const(c: Const) -> (r: TypedValue)
        ensures
            r@ == TypedTerm::Const(c),
    {
        TypedValue::Const(c)
    }

    /// A copy of the value.
    pub fn to_value(&self) -> (r: Expr)
        ensures
            r@ == value_of(self@),
    {
        match self {
            TypedValue::Const(c) => Expr::Const(*c),
            TypedValue::Typed(v, _) => clone_expr(v),
            TypedValue::Untyped(v) => clone_expr(v),
        }
    }

    /// A copy of the type; `None` for `Sort` and for a value that was not
    /// checked.
    pub fn get_type(&self) -> (r: Option<TypedValue>)
        ensures
            match r {
                Some(t) => spec_get_type(self@) == Some(t@),
                None => spec_get_type(self@) is None,
            },
    {
        match self {
            TypedValue::Const(c) => match type_of_const(*c) {
                Some(k) => Some(TypedValue::Const(k)),
                None => None,
            },
            TypedValue::Typed(_, t) => Some(clone_typed(t)),
            TypedValue::Untyped(_) => None,
        }
    }

    /// The universe that the value reduces to, if it reduces to one.
    pub fn as_const(&self, fuel: u64) -> (r: Option<Option<Const>>)
        ensures
            r == spec_as_const(fuel as nat, self@),
    {
        match self {
            TypedValue::Const(c) => Some(Some(*c)),
            TypedValue::Typed(v, _) | TypedValue::Untyped(v) => match whnf(v, fuel) {
                Some(Expr::Const(c)) => Some(Some(c)),
                Some(_) => Some(None),
                None => None,
            },
        }
    }

    /// Puts the value of `val` for the variable `x@0`, in the value and in
    /// its type, and lowers the variables of `x` above it.
    pub fn subst_shift(&self, x: &String, val: &TypedValue) -> (r: Option<TypedValue>)
        ensures
            match r {
                Some(t) => spec_subst_typed(x@, 0, value_of(val@), self@) == Some(t@),
                None => spec_subst_typed(x@, 0, value_of(val@), self@) is None,
            },
    {
        let v = val.to_value();
        self.subst_value(x, &v)
    }

    fn subst_value(&self, x: &String, val: &Expr) -> (r: Option<TypedValue>)
        ensures
            match r {
                Some(t) => spec_subst_typed(x@, 0, val@, self@) == Some(t@),
                None => spec_subst_typed(x@, 0, val@, self@) is None,
            },
        decreases self,
    {
        match self {
            TypedValue::Const(c) => Some(TypedValue::Const(*c)),
            TypedValue::Typed(v, t) => {
                let v2 = subst_from(x, Some(0), Ghost(0), val, v);
                let t2 = t.subst_value(x, val);
                match (v2, t2) {
                    (Some(v2), Some(t2)) => Some(TypedValue::Typed(v2, Box::new(t2))),
                    _ => None,
                }
            },
            TypedValue::Untyped(v) => match subst_from(x, Some(0), Ghost(0), val, v) {
                Some(v2) => Some(TypedValue::Untyped(v2)),
                None => None,
            },
        }
    }

    /// Shifts the value and its type by `d` over the variable `x@0`.
    pub fn shift(&self, d: i64, x: &String) -> (r: Option<TypedValue>)
        ensures
            match r {
                Some(t) => spec_shift_typed(d as int, x@, 0, self@) == Some(t@),
                None => spec_shift_typed(d as int, x@, 0, self@) is None,
            },
        decreases self,
    {
        match self {
            TypedValue::Const(c) => Some(TypedValue::Const(*c)),
            TypedValue::Typed(v, t) => {
                let v2 = shift_from(d, x, Some(0), Ghost(0), v);
                let t2 = t.shift(d, x);
                match (v2, t2) {
                    (Some(v2), Some(t2)) => Some(TypedValue::Typed(v2, Box::new(t2))),
                    _ => None,
                }
            },
            TypedValue::Untyped(v) => match shift_from(d, x, Some(0), Ghost(0), v) {
                Some(v2) => Some(TypedValue::Untyped(v2)),
                None => None,
            },
        }
    }
}

/// The type of a universe.
pub fn type_of_const(c: Const) -> (r: Option<Const>)
    ensures
        r == spec_type_of_const(c),
{
    match c {
        Const::Type => Some(Const::Kind),
        Const::Kind => Some(Const::Sort),
        Const::Sort => None,
    }
}

/// A copy of a typed value.
pub fn clone_typed(tv: &TypedValue) -> (r: TypedValue)
    ensures
        r@ == tv@,
    decreases tv,
{
    match tv {
        TypedValue::Const(c) => TypedValue::Const(*c),
        TypedValue::Typed(v, t) => TypedValue::Typed(clone_expr(v), Box::new(clone_typed(t))),
        TypedValue::Untyped(v) => TypedValue::Untyped(clone_expr(v)),
    }
}

} // verus!
