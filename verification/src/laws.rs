//! Laws of the checker and of its context.

use vstd::prelude::*;
use crate::context::{spec_insert_type, spec_insert_value, spec_lookup, Bindings};
use crate::error::{Failure, Message, TypeError};
use crate::syntax::Name;
use crate::typed::spec_shift_typed;
use crate::syntax::{Const, Expr, Term};
use crate::typecheck::{
    checked, fail, spec_tck_annot, spec_type_of, spec_type_two, spec_type_with, spec_typecheck,
    spec_typecheck_with, Checked,
};
use crate::typed::{spec_get_type, TypedTerm, TypedValue};

verus! {

/// What a result is, as a model.
pub open spec fn outcome(r: Result<TypedValue, TypeError>) -> Checked {
    match r {
        Ok(tv) => Ok(tv@),
        Err(e) => Err(e@),
    }
}

/// Checking is a function of the expression and the budget: any two
/// results of checking one expression within one budget are the same.
pub proof fn lemma_typecheck_deterministic(
    fuel: nat,
    e: Expr,
    r1: Result<TypedValue, TypeError>,
    r2: Result<TypedValue, TypeError>,
)
    requires
        checked(r1, spec_typecheck(fuel, e@)),
        checked(r2, spec_typecheck(fuel, e@)),
    ensures
        outcome(r1) == outcome(r2),
{
}

/// The universes are stratified: `Type` has the type `Kind`, `Kind` has
/// the type `Sort`, and checking `Sort` fails with `Sort`, within any
/// budget but the empty one.
pub proof fn lemma_universes(fuel: nat)
    requires
        fuel > 0,
    ensures
        spec_typecheck(fuel, Term::Const(Const::Type)) == Ok::<TypedTerm, Failure>(
            TypedTerm::Const(Const::Type),
        ),
        spec_get_type(TypedTerm::Const(Const::Type)) == Some(TypedTerm::Const(Const::Kind)),
        spec_typecheck(fuel, Term::Const(Const::Kind)) == Ok::<TypedTerm, Failure>(
            TypedTerm::Const(Const::Kind),
        ),
        spec_get_type(TypedTerm::Const(Const::Kind)) == Some(TypedTerm::Const(Const::Sort)),
        spec_typecheck(fuel, Term::Const(Const::Sort)) == Err::<TypedTerm, Failure>(
            fail(Seq::empty(), Message::Sort),
        ),
{
}

/// An annotation does not change a type: where an expression checks
/// against a type, whatever type that is, the type of the whole is the
/// type that the expression has by itself, within the budget that is left
/// for it.
pub proof fn lemma_annotation_keeps_type(fuel: nat, e: Term, t: Term)
    requires
        spec_typecheck_with(fuel, e, t) is Ok,
    ensures
        fuel >= 1,
        spec_type_with((fuel - 1) as nat, Seq::empty(), e) matches Ok(x) && spec_type_of(
            spec_typecheck_with(fuel, e, t)->Ok_0,
        ) == spec_type_of(x),
{
    reveal(spec_tck_annot);
    let whole = Term::Annot(Box::new(e), Box::new(t));
    assert(spec_type_with(fuel, Seq::empty(), whole) is Ok);
    assert(fuel >= 1);
    let f = (fuel - 1) as nat;
    assert(spec_type_with(fuel, Seq::empty(), whole) == spec_type_two(f, Seq::empty(), whole, e, t));
}

/// The variable that `let` has just bound is its value, and every other
/// variable is what it was: for another name the same, and for the same
/// name the one before.
pub proof fn lemma_lookup_value(ctx: Bindings, x: Name, v: TypedTerm, y: Name, n: nat)
    ensures
        ({
            let ctx2 = spec_insert_value(ctx, x, v);
            spec_lookup(ctx2, y, n, ctx2.len()) == if y == x {
                if n == 0 {
                    Some(v)
                } else {
                    spec_lookup(ctx, y, (n - 1) as nat, ctx.len())
                }
            } else {
                spec_lookup(ctx, y, n, ctx.len())
            }
        }),
{
    let ctx2 = spec_insert_value(ctx, x, v);
    lemma_lookup_prefix(ctx, ctx2, y, n, ctx.len());
    if n > 0 {
        lemma_lookup_prefix(ctx, ctx2, y, (n - 1) as nat, ctx.len());
    }
}

/// The variable that a function has just bound is the variable `x@0` with
/// the type that was given for it, shifted over `x`.
pub proof fn lemma_lookup_type(ctx: Bindings, x: Name, t: TypedTerm)
    requires
        spec_insert_type(ctx, x, t) is Some,
    ensures
        ({
            let ctx2 = spec_insert_type(ctx, x, t)->Some_0;
            spec_shift_typed(1, x, 0, t) matches Some(t2) && spec_lookup(ctx2, x, 0, ctx2.len())
                == Some(TypedTerm::Typed(Term::Var(x, 0), Box::new(t2)))
        }),
{
}

proof fn lemma_lookup_prefix(a: Bindings, b: Bindings, y: Name, n: nat, k: nat)
    requires
        k <= a.len(),
        k <= b.len(),
        forall|i: int| 0 <= i < k ==> a[i] == b[i],
    ensures
        spec_lookup(a, y, n, k) == spec_lookup(b, y, n, k),
    decreases k,
{
    if k > 0 {
        if a[k - 1].0 == y {
            if n > 0 {
                lemma_lookup_prefix(a, b, y, (n - 1) as nat, (k - 1) as nat);
            }
        } else {
            lemma_lookup_prefix(a, b, y, n, (k - 1) as nat);
        }
    }
}

} // verus!
