//! Laws of reduction: a greater budget never changes a result, and a weak
//! head normal form reduces to itself.

use vstd::prelude::*;
use crate::normalize::{
    app, cons_fn, fold_app, is_none_of, list_from, list_of, natural_fold_app, optional_of,
    some_fn, spec_apply_builtin, spec_binop, spec_builtin1, spec_builtin2, spec_builtin5,
    spec_list_fn, spec_list_fold, spec_natural_fn, spec_natural_fold, spec_optional_fold,
    spec_whnf, spec_whnf_app, spec_whnf_field, spec_whnf_if, spec_whnf_merge,
    spec_whnf_projection, succ_fn,
};
use crate::record::{index_of, spec_project};
use crate::normalize::{spec_nf, spec_nf_alts, spec_nf_children, spec_nf_fields, spec_nf_terms};
use crate::syntax::{Alternatives, BinOp, Builtin, Fields, Name, Term};
use crate::var::{spec_shift, spec_subst_shift};

verus! {

proof fn lemma_builtin1_more(f: nat, f2: nat, b: Builtin, a: Term)
    requires
        f <= f2,
        spec_builtin1(f, b, a) is Some,
    ensures
        spec_builtin1(f2, b, a) == spec_builtin1(f, b, a),
    decreases f, 1nat,
{
    match b {
        Builtin::NaturalIsZero | Builtin::NaturalEven | Builtin::NaturalOdd
        | Builtin::NaturalToInteger | Builtin::NaturalShow | Builtin::IntegerShow
        | Builtin::TextShow => {
            lemma_whnf_more(f, f2, a);
        },
        Builtin::NaturalBuild => {
            lemma_whnf_more(
                f,
                f2,
                app(app(app(a, Term::Builtin(Builtin::Natural)), succ_fn()), Term::NaturalLit(0)),
            );
        },
        _ => {},
    }
}

proof fn lemma_builtin2_more(f: nat, f2: nat, b: Builtin, a1: Term, a: Term)
    requires
        f <= f2,
        spec_builtin2(f, b, a1, a) is Some,
    ensures
        spec_builtin2(f2, b, a1, a) == spec_builtin2(f, b, a1, a),
    decreases f, 1nat,
{
    match b {
        Builtin::NaturalSubtract => {
            lemma_whnf_more(f, f2, a1);
            lemma_whnf_more(f, f2, a);
        },
        Builtin::ListLength | Builtin::ListHead | Builtin::ListLast | Builtin::ListReverse
        | Builtin::ListIndexed => {
            lemma_whnf_more(f, f2, a);
        },
        Builtin::ListBuild => match spec_shift(1, "a"@, 0, a1) {
            Some(a1s) => {
                lemma_whnf_more(
                    f,
                    f2,
                    app(
                        app(app(a, list_of(a1)), cons_fn(a1, a1s)),
                        Term::EmptyListLit(Box::new(list_of(a1))),
                    ),
                );
            },
            None => {},
        },
        Builtin::OptionalBuild => {
            lemma_whnf_more(
                f,
                f2,
                app(
                    app(app(a, optional_of(a1)), some_fn(a1)),
                    app(Term::Builtin(Builtin::OptionalNone), a1),
                ),
            );
        },
        _ => {},
    }
}

proof fn lemma_natural_fold_more(f: nat, f2: nat, n: Term, t: Term, s: Term, z: Term)
    requires
        f <= f2,
        spec_natural_fold(f, n, t, s, z) is Some,
    ensures
        spec_natural_fold(f2, n, t, s, z) == spec_natural_fold(f, n, t, s, z),
    decreases f, 1nat,
{
    lemma_whnf_more(f, f2, n);
    match spec_whnf(f, n) {
        Some(Term::NaturalLit(k)) => {
            if k == 0 {
                lemma_whnf_more(f, f2, z);
            } else {
                lemma_whnf_more(
                    f,
                    f2,
                    app(s, natural_fold_app(Term::NaturalLit((k - 1) as u64), t, s, z)),
                );
            }
        },
        _ => {},
    }
}

proof fn lemma_list_fold_more(f: nat, f2: nat, t: Term, x: Term, ty: Term, g: Term, a: Term)
    requires
        f <= f2,
        spec_list_fold(f, t, x, ty, g, a) is Some,
    ensures
        spec_list_fold(f2, t, x, ty, g, a) == spec_list_fold(f, t, x, ty, g, a),
    decreases f, 1nat,
{
    lemma_whnf_more(f, f2, x);
    match spec_whnf(f, x) {
        Some(Term::EmptyListLit(_)) => {
            lemma_whnf_more(f, f2, a);
        },
        Some(Term::NEListLit(h, rest)) => {
            lemma_whnf_more(
                f,
                f2,
                app(app(g, *h), fold_app(Builtin::ListFold, t, list_from(t, rest), ty, g, a)),
            );
        },
        _ => {},
    }
}

proof fn lemma_optional_fold_more(f: nat, f2: nat, t: Term, x: Term, ty: Term, g: Term, a: Term)
    requires
        f <= f2,
        spec_optional_fold(f, t, x, ty, g, a) is Some,
    ensures
        spec_optional_fold(f2, t, x, ty, g, a) == spec_optional_fold(f, t, x, ty, g, a),
    decreases f, 1nat,
{
    lemma_whnf_more(f, f2, x);
    match spec_whnf(f, x) {
        Some(Term::SomeLit(v)) => {
            lemma_whnf_more(f, f2, app(g, *v));
        },
        Some(w) => {
            if is_none_of(w) {
                lemma_whnf_more(f, f2, a);
            }
        },
        None => {},
    }
}

proof fn lemma_builtin5_more(f: nat, f2: nat, b: Builtin, t: Term, x: Term, ty: Term, g: Term, a: Term)
    requires
        f <= f2,
        spec_builtin5(f, b, t, x, ty, g, a) is Some,
    ensures
        spec_builtin5(f2, b, t, x, ty, g, a) == spec_builtin5(f, b, t, x, ty, g, a),
    decreases f, 2nat,
{
    match b {
        Builtin::ListFold => lemma_list_fold_more(f, f2, t, x, ty, g, a),
        Builtin::OptionalFold => lemma_optional_fold_more(f, f2, t, x, ty, g, a),
        _ => {},
    }
}

proof fn lemma_apply_builtin_more(f: nat, f2: nat, g: Term, a: Term)
    requires
        f <= f2,
        spec_apply_builtin(f, g, a) is Some,
    ensures
        spec_apply_builtin(f2, g, a) == spec_apply_builtin(f, g, a),
    decreases f, 3nat,
{
    match g {
        Term::Builtin(b) => lemma_builtin1_more(f, f2, b, a),
        Term::App(h1, a1) => match *h1 {
            Term::Builtin(b) => lemma_builtin2_more(f, f2, b, *a1, a),
            Term::App(h2, a2) => match *h2 {
                Term::App(h3, a3) => match *h3 {
                    Term::Builtin(Builtin::NaturalFold) => lemma_natural_fold_more(
                        f,
                        f2,
                        *a3,
                        *a2,
                        *a1,
                        a,
                    ),
                    Term::App(h4, a4) => match *h4 {
                        Term::Builtin(b) => lemma_builtin5_more(f, f2, b, *a4, *a3, *a2, *a1, a),
                        _ => {},
                    },
                    _ => {},
                },
                _ => {},
            },
            _ => {},
        },
        _ => {},
    }
}

proof fn lemma_whnf_app_more(f: nat, f2: nat, g: Term, a: Term)
    requires
        f <= f2,
        spec_whnf_app(f, g, a) is Some,
    ensures
        spec_whnf_app(f2, g, a) == spec_whnf_app(f, g, a),
    decreases f, 4nat,
{
    lemma_whnf_more(f, f2, g);
    match spec_whnf(f, g) {
        Some(Term::Lam(x, _, b)) => match spec_subst_shift(x, 0, a, *b) {
            Some(r) => lemma_whnf_more(f, f2, r),
            None => {},
        },
        Some(g2) => lemma_apply_builtin_more(f, f2, g2, a),
        None => {},
    }
}

proof fn lemma_whnf_if_more(f: nat, f2: nat, c: Term, a: Term, b: Term)
    requires
        f <= f2,
        spec_whnf_if(f, c, a, b) is Some,
    ensures
        spec_whnf_if(f2, c, a, b) == spec_whnf_if(f, c, a, b),
    decreases f, 1nat,
{
    lemma_whnf_more(f, f2, c);
    match spec_whnf(f, c) {
        Some(Term::BoolLit(v)) => {
            if v {
                lemma_whnf_more(f, f2, a);
            } else {
                lemma_whnf_more(f, f2, b);
            }
        },
        _ => {},
    }
}

proof fn lemma_whnf_field_more(f: nat, f2: nat, r: Term, l: Name)
    requires
        f <= f2,
        spec_whnf_field(f, r, l) is Some,
    ensures
        spec_whnf_field(f2, r, l) == spec_whnf_field(f, r, l),
    decreases f, 1nat,
{
    lemma_whnf_more(f, f2, r);
    match spec_whnf(f, r) {
        Some(Term::RecordLit(fs)) => match index_of(fs, l, 0) {
            Some(i) => lemma_whnf_more(f, f2, fs[i as int].1),
            None => {},
        },
        _ => {},
    }
}

proof fn lemma_whnf_projection_more(f: nat, f2: nat, r: Term, ls: Seq<Name>)
    requires
        f <= f2,
        spec_whnf_projection(f, r, ls) is Some,
    ensures
        spec_whnf_projection(f2, r, ls) == spec_whnf_projection(f, r, ls),
    decreases f, 1nat,
{
    lemma_whnf_more(f, f2, r);
}

proof fn lemma_whnf_merge_more(f: nat, f2: nat, h: Term, u: Term, ot: Option<Box<Term>>)
    requires
        f <= f2,
        spec_whnf_merge(f, h, u, ot) is Some,
    ensures
        spec_whnf_merge(f2, h, u, ot) == spec_whnf_merge(f, h, u, ot),
    decreases f, 1nat,
{
    lemma_whnf_more(f, f2, h);
    lemma_whnf_more(f, f2, u);
    match (spec_whnf(f, h), spec_whnf(f, u)) {
        (Some(Term::RecordLit(hs)), Some(u2)) => match u2 {
            Term::App(c, v) => match *c {
                Term::Field(ut, k) => match index_of(hs, k, 0) {
                    Some(i) => {
                        if *ut is UnionType {
                            lemma_whnf_more(f, f2, app(hs[i as int].1, *v));
                        }
                    },
                    None => {},
                },
                _ => {},
            },
            Term::Field(ut, k) => match index_of(hs, k, 0) {
                Some(i) => {
                    if *ut is UnionType {
                        lemma_whnf_more(f, f2, hs[i as int].1);
                    }
                },
                None => {},
            },
            _ => {},
        },
        _ => {},
    }
}

/// A greater budget never changes a weak head normal form: what is found
/// within the budget `f` is found within every budget above it.
pub proof fn lemma_whnf_more(f: nat, f2: nat, t: Term)
    requires
        f <= f2,
        spec_whnf(f, t) is Some,
    ensures
        spec_whnf(f2, t) == spec_whnf(f, t),
    decreases f, 0nat,
{
    if f > 0 {
        let g = (f - 1) as nat;
        let g2 = (f2 - 1) as nat;
        match t {
            Term::App(a, b) => lemma_whnf_app_more(g, g2, *a, *b),
            Term::Let(x, _, v, b) => match spec_subst_shift(x, 0, *v, *b) {
                Some(r) => lemma_whnf_more(g, g2, r),
                None => {},
            },
            Term::Annot(a, _) => lemma_whnf_more(g, g2, *a),
            Term::BoolIf(c, a, b) => lemma_whnf_if_more(g, g2, *c, *a, *b),
            Term::Field(r, l) => lemma_whnf_field_more(g, g2, *r, l),
            Term::Projection(r, ls) => lemma_whnf_projection_more(g, g2, *r, ls),
            Term::BinOp(o, l, r) => {
                lemma_whnf_more(g, g2, *l);
                lemma_whnf_more(g, g2, *r);
            },
            Term::Merge(h, u, ot) => lemma_whnf_merge_more(g, g2, *h, *u, ot),
            _ => {},
        }
    }
}

/// An expression with nothing to reduce at its head, whatever is below.
pub open spec fn passive(w: Term) -> bool {
    !(w is App || w is Let || w is Annot || w is BoolIf || w is Field || w is Projection || w
        is BinOp || w is Merge)
}

proof fn lemma_passive(f: nat, w: Term)
    requires
        f > 0,
        passive(w),
    ensures
        spec_whnf(f, w) == Some(w),
{
}

proof fn lemma_none_of_again(f: nat, t: Term)
    requires
        f > 0,
    ensures
        spec_whnf(f + 1, app(Term::Builtin(Builtin::OptionalNone), t)) == Some(
            app(Term::Builtin(Builtin::OptionalNone), t),
        ),
{
    let none = Term::Builtin(Builtin::OptionalNone);
    assert(spec_whnf(f, none) == Some(none));
    assert(spec_builtin1(f, Builtin::OptionalNone, t) == Some(app(none, t)));
    assert(spec_apply_builtin(f, none, t) == Some(app(none, t)));
    assert(spec_whnf_app(f, none, t) == Some(app(none, t)));
}

proof fn lemma_stuck_again(f: nat, g: Term, a: Term)
    requires
        spec_whnf(f, g) == Some(g),
        !(g is Lam),
        spec_apply_builtin(f, g, a) == Some(app(g, a)),
    ensures
        spec_whnf(f + 1, app(g, a)) == Some(app(g, a)),
{
    assert(spec_whnf_app(f, g, a) == Some(app(g, a)));
}

proof fn lemma_builtin1_again(f: nat, b: Builtin, a: Term)
    requires
        spec_builtin1(f, b, a) is Some,
    ensures
        ({
            let w = spec_builtin1(f, b, a)->Some_0;
            w == app(Term::Builtin(b), a) || spec_whnf(f + 1, w) == Some(w)
        }),
    decreases f, 1nat,
{
    match b {
        Builtin::NaturalIsZero | Builtin::NaturalEven | Builtin::NaturalOdd
        | Builtin::NaturalToInteger | Builtin::NaturalShow => {
            match spec_whnf(f, a) {
                Some(Term::NaturalLit(n)) => {
                    let w = spec_natural_fn(b, n)->Some_0;
                    lemma_passive(f + 1, w);
                },
                _ => {},
            }
        },
        Builtin::IntegerShow => {
            match spec_whnf(f, a) {
                Some(Term::IntegerLit(n)) => {
                    lemma_passive(f + 1, spec_builtin1(f, b, a)->Some_0);
                },
                _ => {},
            }
        },
        Builtin::TextShow => {
            match spec_whnf(f, a) {
                Some(Term::TextLit(chunks, _)) => {
                    if chunks.len() == 0 {
                        lemma_passive(f + 1, spec_builtin1(f, b, a)->Some_0);
                    }
                },
                _ => {},
            }
        },
        Builtin::NaturalBuild => {
            let e = app(
                app(app(a, Term::Builtin(Builtin::Natural)), succ_fn()),
                Term::NaturalLit(0),
            );
            lemma_whnf_again(f, e);
            lemma_whnf_more(f, f + 1, spec_whnf(f, e)->Some_0);
        },
        _ => {},
    }
}

proof fn lemma_list_fn_again(f: nat, b: Builtin, t: Term, w: Term, stuck: Term)
    requires
        f > 0,
        spec_list_fn(b, t, w, stuck) is Some,
        passive(w),
    ensures
        ({
            let r = spec_list_fn(b, t, w, stuck)->Some_0;
            r == stuck || spec_whnf(f + 1, r) == Some(r)
        }),
{
    let r = spec_list_fn(b, t, w, stuck)->Some_0;
    lemma_none_of_again(f, t);
    if r != stuck && r != app(Term::Builtin(Builtin::OptionalNone), t) {
        lemma_passive(f + 1, r);
    }
}

proof fn lemma_builtin2_again(f: nat, b: Builtin, a1: Term, a: Term)
    requires
        spec_builtin2(f, b, a1, a) is Some,
    ensures
        ({
            let w = spec_builtin2(f, b, a1, a)->Some_0;
            w == app(app(Term::Builtin(b), a1), a) || spec_whnf(f + 1, w) == Some(w)
        }),
    decreases f, 1nat,
{
    let stuck = app(app(Term::Builtin(b), a1), a);
    match b {
        Builtin::NaturalSubtract => {
            let w = spec_builtin2(f, b, a1, a)->Some_0;
            if w != stuck {
                lemma_passive(f + 1, w);
            }
        },
        Builtin::ListLength | Builtin::ListHead | Builtin::ListLast | Builtin::ListReverse
        | Builtin::ListIndexed => {
            match spec_whnf(f, a) {
                Some(w) => {
                    if w is EmptyListLit || w is NEListLit {
                        lemma_list_fn_again(f, b, a1, w, stuck);
                    }
                },
                None => {},
            }
        },
        Builtin::ListBuild => match spec_shift(1, "a"@, 0, a1) {
            Some(a1s) => {
                let e = app(
                    app(app(a, list_of(a1)), cons_fn(a1, a1s)),
                    Term::EmptyListLit(Box::new(list_of(a1))),
                );
                lemma_whnf_again(f, e);
                lemma_whnf_more(f, f + 1, spec_whnf(f, e)->Some_0);
            },
            None => {},
        },
        Builtin::OptionalBuild => {
            let e = app(
                app(app(a, optional_of(a1)), some_fn(a1)),
                app(Term::Builtin(Builtin::OptionalNone), a1),
            );
            lemma_whnf_again(f, e);
            lemma_whnf_more(f, f + 1, spec_whnf(f, e)->Some_0);
        },
        _ => {},
    }
}

proof fn lemma_natural_fold_again(f: nat, n: Term, t: Term, s: Term, z: Term)
    requires
        spec_natural_fold(f, n, t, s, z) is Some,
    ensures
        ({
            let w = spec_natural_fold(f, n, t, s, z)->Some_0;
            w == natural_fold_app(n, t, s, z) || spec_whnf(f + 1, w) == Some(w)
        }),
    decreases f, 1nat,
{
    match spec_whnf(f, n) {
        Some(Term::NaturalLit(k)) => {
            if k == 0 {
                lemma_whnf_again(f, z);
                lemma_whnf_more(f, f + 1, spec_whnf(f, z)->Some_0);
            } else {
                let e = app(s, natural_fold_app(Term::NaturalLit((k - 1) as u64), t, s, z));
                lemma_whnf_again(f, e);
                lemma_whnf_more(f, f + 1, spec_whnf(f, e)->Some_0);
            }
        },
        _ => {},
    }
}

proof fn lemma_list_fold_again(f: nat, t: Term, x: Term, ty: Term, g: Term, a: Term)
    requires
        spec_list_fold(f, t, x, ty, g, a) is Some,
    ensures
        ({
            let w = spec_list_fold(f, t, x, ty, g, a)->Some_0;
            w == fold_app(Builtin::ListFold, t, x, ty, g, a) || spec_whnf(f + 1, w) == Some(w)
        }),
    decreases f, 1nat,
{
    match spec_whnf(f, x) {
        Some(Term::EmptyListLit(_)) => {
            lemma_whnf_again(f, a);
            lemma_whnf_more(f, f + 1, spec_whnf(f, a)->Some_0);
        },
        Some(Term::NEListLit(h, rest)) => {
            let e = app(app(g, *h), fold_app(Builtin::ListFold, t, list_from(t, rest), ty, g, a));
            lemma_whnf_again(f, e);
            lemma_whnf_more(f, f + 1, spec_whnf(f, e)->Some_0);
        },
        _ => {},
    }
}

proof fn lemma_optional_fold_again(f: nat, t: Term, x: Term, ty: Term, g: Term, a: Term)
    requires
        spec_optional_fold(f, t, x, ty, g, a) is Some,
    ensures
        ({
            let w = spec_optional_fold(f, t, x, ty, g, a)->Some_0;
            w == fold_app(Builtin::OptionalFold, t, x, ty, g, a) || spec_whnf(f + 1, w) == Some(
                w,
            )
        }),
    decreases f, 1nat,
{
    match spec_whnf(f, x) {
        Some(Term::SomeLit(v)) => {
            let e = app(g, *v);
            lemma_whnf_again(f, e);
            lemma_whnf_more(f, f + 1, spec_whnf(f, e)->Some_0);
        },
        Some(w) => {
            if is_none_of(w) {
                lemma_whnf_again(f, a);
                lemma_whnf_more(f, f + 1, spec_whnf(f, a)->Some_0);
            }
        },
        None => {},
    }
}

proof fn lemma_builtin5_again(f: nat, b: Builtin, t: Term, x: Term, ty: Term, g: Term, a: Term)
    requires
        spec_builtin5(f, b, t, x, ty, g, a) is Some,
    ensures
        ({
            let w = spec_builtin5(f, b, t, x, ty, g, a)->Some_0;
            w == fold_app(b, t, x, ty, g, a) || spec_whnf(f + 1, w) == Some(w)
        }),
    decreases f, 2nat,
{
    match b {
        Builtin::ListFold => lemma_list_fold_again(f, t, x, ty, g, a),
        Builtin::OptionalFold => lemma_optional_fold_again(f, t, x, ty, g, a),
        _ => {},
    }
}

proof fn lemma_apply_builtin_again(f: nat, g: Term, a: Term)
    requires
        spec_apply_builtin(f, g, a) is Some,
        spec_whnf(f, g) == Some(g),
        !(g is Lam),
    ensures
        ({
            let w = spec_apply_builtin(f, g, a)->Some_0;
            spec_whnf(f + 1, w) == Some(w)
        }),
    decreases f, 3nat,
{
    let w = spec_apply_builtin(f, g, a)->Some_0;
    match g {
        Term::Builtin(b) => lemma_builtin1_again(f, b, a),
        Term::App(h1, a1) => match *h1 {
            Term::Builtin(b) => lemma_builtin2_again(f, b, *a1, a),
            Term::App(h2, a2) => match *h2 {
                Term::App(h3, a3) => match *h3 {
                    Term::Builtin(Builtin::NaturalFold) => lemma_natural_fold_again(
                        f,
                        *a3,
                        *a2,
                        *a1,
                        a,
                    ),
                    Term::App(h4, a4) => match *h4 {
                        Term::Builtin(b) => lemma_builtin5_again(f, b, *a4, *a3, *a2, *a1, a),
                        _ => {},
                    },
                    _ => {},
                },
                _ => {},
            },
            _ => {},
        },
        _ => {},
    }
    if w == app(g, a) {
        lemma_stuck_again(f, g, a);
    }
}

proof fn lemma_whnf_app_again(f: nat, g: Term, a: Term)
    requires
        spec_whnf_app(f, g, a) is Some,
    ensures
        ({
            let w = spec_whnf_app(f, g, a)->Some_0;
            spec_whnf(f + 1, w) == Some(w)
        }),
    decreases f, 4nat,
{
    lemma_whnf_again(f, g);
    match spec_whnf(f, g) {
        Some(Term::Lam(x, _, b)) => match spec_subst_shift(x, 0, a, *b) {
            Some(r) => {
                lemma_whnf_again(f, r);
                lemma_whnf_more(f, f + 1, spec_whnf(f, r)->Some_0);
            },
            None => {},
        },
        Some(g2) => lemma_apply_builtin_again(f, g2, a),
        None => {},
    }
}

proof fn lemma_whnf_if_again(f: nat, c: Term, a: Term, b: Term)
    requires
        spec_whnf_if(f, c, a, b) is Some,
    ensures
        ({
            let w = spec_whnf_if(f, c, a, b)->Some_0;
            spec_whnf(f + 1, w) == Some(w)
        }),
    decreases f, 1nat,
{
    lemma_whnf_again(f, c);
    match spec_whnf(f, c) {
        Some(Term::BoolLit(v)) => {
            let e = if v {
                a
            } else {
                b
            };
            lemma_whnf_again(f, e);
            lemma_whnf_more(f, f + 1, spec_whnf(f, e)->Some_0);
        },
        Some(c2) => {
            assert(spec_whnf_if(f, c2, a, b) == Some(
                Term::BoolIf(Box::new(c2), Box::new(a), Box::new(b)),
            ));
        },
        None => {},
    }
}

proof fn lemma_whnf_field_again(f: nat, r: Term, l: Name)
    requires
        spec_whnf_field(f, r, l) is Some,
    ensures
        ({
            let w = spec_whnf_field(f, r, l)->Some_0;
            spec_whnf(f + 1, w) == Some(w)
        }),
    decreases f, 1nat,
{
    lemma_whnf_again(f, r);
    match spec_whnf(f, r) {
        Some(Term::RecordLit(fs)) => match index_of(fs, l, 0) {
            Some(i) => {
                lemma_whnf_again(f, fs[i as int].1);
                lemma_whnf_more(f, f + 1, spec_whnf(f, fs[i as int].1)->Some_0);
            },
            None => {
                assert(spec_whnf_field(f, Term::RecordLit(fs), l) == Some(
                    Term::Field(Box::new(Term::RecordLit(fs)), l),
                ));
            },
        },
        Some(r2) => {
            assert(spec_whnf_field(f, r2, l) == Some(Term::Field(Box::new(r2), l)));
        },
        None => {},
    }
}

proof fn lemma_whnf_projection_again(f: nat, r: Term, ls: Seq<Name>)
    requires
        spec_whnf_projection(f, r, ls) is Some,
    ensures
        ({
            let w = spec_whnf_projection(f, r, ls)->Some_0;
            spec_whnf(f + 1, w) == Some(w)
        }),
    decreases f, 1nat,
{
    lemma_whnf_again(f, r);
    match spec_whnf(f, r) {
        Some(Term::RecordLit(fs)) => match spec_project(fs, ls, ls.len()) {
            Some(fs2) => {
                lemma_passive(f + 1, Term::RecordLit(fs2));
            },
            None => {
                assert(spec_whnf_projection(f, Term::RecordLit(fs), ls) == Some(
                    Term::Projection(Box::new(Term::RecordLit(fs)), ls),
                ));
            },
        },
        Some(r2) => {
            assert(spec_whnf_projection(f, r2, ls) == Some(Term::Projection(Box::new(r2), ls)));
        },
        None => {},
    }
}

proof fn lemma_whnf_merge_again(f: nat, h: Term, u: Term, ot: Option<Box<Term>>)
    requires
        spec_whnf_merge(f, h, u, ot) is Some,
    ensures
        ({
            let w = spec_whnf_merge(f, h, u, ot)->Some_0;
            spec_whnf(f + 1, w) == Some(w)
        }),
    decreases f, 1nat,
{
    lemma_whnf_again(f, h);
    lemma_whnf_again(f, u);
    let w = spec_whnf_merge(f, h, u, ot)->Some_0;
    match (spec_whnf(f, h), spec_whnf(f, u)) {
        (Some(h2), Some(u2)) => {
            let stuck = Term::Merge(Box::new(h2), Box::new(u2), ot);
            if w == stuck {
                assert(spec_whnf_merge(f, h2, u2, ot) == Some(stuck));
            } else {
                match h2 {
                    Term::RecordLit(hs) => match u2 {
                        Term::App(c, v) => match *c {
                            Term::Field(ut, k) => match index_of(hs, k, 0) {
                                Some(i) => {
                                    let e = app(hs[i as int].1, *v);
                                    lemma_whnf_again(f, e);
                                    lemma_whnf_more(f, f + 1, spec_whnf(f, e)->Some_0);
                                },
                                None => {},
                            },
                            _ => {},
                        },
                        Term::Field(ut, k) => match index_of(hs, k, 0) {
                            Some(i) => {
                                let e = hs[i as int].1;
                                lemma_whnf_again(f, e);
                                lemma_whnf_more(f, f + 1, spec_whnf(f, e)->Some_0);
                            },
                            None => {},
                        },
                        _ => {},
                    },
                    _ => {},
                }
            }
        },
        _ => {},
    }
}

proof fn lemma_binop_again(f: nat, o: BinOp, l: Term, r: Term)
    requires
        f > 0,
        spec_binop(o, l, r) is Some,
        spec_whnf(f, l) == Some(l),
        spec_whnf(f, r) == Some(r),
    ensures
        ({
            let w = spec_binop(o, l, r)->Some_0;
            spec_whnf(f + 1, w) == Some(w)
        }),
{
    let w = spec_binop(o, l, r)->Some_0;
    if w != Term::BinOp(o, Box::new(l), Box::new(r)) {
        lemma_passive(f + 1, w);
    }
}

/// A weak head normal form reduces to itself: reducing what `spec_whnf`
/// gave, within the same budget, gives it again.
pub proof fn lemma_whnf_again(f: nat, t: Term)
    requires
        spec_whnf(f, t) is Some,
    ensures
        ({
            let w = spec_whnf(f, t)->Some_0;
            spec_whnf(f, w) == Some(w)
        }),
    decreases f, 0nat,
{
    if f > 0 {
        let g = (f - 1) as nat;
        match t {
            Term::App(a, b) => lemma_whnf_app_again(g, *a, *b),
            Term::Let(x, _, v, b) => match spec_subst_shift(x, 0, *v, *b) {
                Some(r) => {
                    lemma_whnf_again(g, r);
                    lemma_whnf_more(g, f, spec_whnf(g, r)->Some_0);
                },
                None => {},
            },
            Term::Annot(a, _) => {
                lemma_whnf_again(g, *a);
                lemma_whnf_more(g, f, spec_whnf(g, *a)->Some_0);
            },
            Term::BoolIf(c, a, b) => lemma_whnf_if_again(g, *c, *a, *b),
            Term::Field(r, l) => lemma_whnf_field_again(g, *r, l),
            Term::Projection(r, ls) => lemma_whnf_projection_again(g, *r, ls),
            Term::BinOp(o, l, r) => {
                lemma_whnf_again(g, *l);
                lemma_whnf_again(g, *r);
                lemma_binop_again(g, o, spec_whnf(g, *l)->Some_0, spec_whnf(g, *r)->Some_0);
            },
            Term::Merge(h, u, ot) => lemma_whnf_merge_again(g, *h, *u, ot),
            _ => {},
        }
    }
}

proof fn lemma_nf_fields_more(f: nat, f2: nat, fs: Fields, k: nat)
    requires
        f <= f2,
        spec_nf_fields(f, fs, k) is Some,
    ensures
        spec_nf_fields(f2, fs, k) == spec_nf_fields(f, fs, k),
    decreases f, 1nat, k,
{
    if !(k == 0 || k > fs.len()) {
        lemma_nf_fields_more(f, f2, fs, (k - 1) as nat);
        lemma_nf_more(f, f2, fs[k - 1].1);
    }
}

proof fn lemma_nf_terms_more(f: nat, f2: nat, ts: Seq<Term>, k: nat)
    requires
        f <= f2,
        spec_nf_terms(f, ts, k) is Some,
    ensures
        spec_nf_terms(f2, ts, k) == spec_nf_terms(f, ts, k),
    decreases f, 1nat, k,
{
    if !(k == 0 || k > ts.len()) {
        lemma_nf_terms_more(f, f2, ts, (k - 1) as nat);
        lemma_nf_more(f, f2, ts[k - 1]);
    }
}

proof fn lemma_nf_alts_more(f: nat, f2: nat, fs: Alternatives, k: nat)
    requires
        f <= f2,
        spec_nf_alts(f, fs, k) is Some,
    ensures
        spec_nf_alts(f2, fs, k) == spec_nf_alts(f, fs, k),
    decreases f, 1nat, k,
{
    if !(k == 0 || k > fs.len()) {
        lemma_nf_alts_more(f, f2, fs, (k - 1) as nat);
        match fs[k - 1].1 {
            Some(t0) => {
                lemma_nf_more(f, f2, t0);
            },
            None => {},
        }
    }
}

proof fn lemma_nf_binder_more(f: nat, f2: nat, w: Term)
    requires
        f <= f2,
        spec_nf_children(f, w) is Some,
        w is Lam || w is Pi || w is Let,
    ensures
        spec_nf_children(f2, w) == spec_nf_children(f, w),
    decreases f, 2nat, 0nat,
{
    match w {
        Term::Lam(_, a, b) => {
            lemma_nf_more(f, f2, *a);
            lemma_nf_more(f, f2, *b);
        },
        Term::Pi(_, a, b) => {
            lemma_nf_more(f, f2, *a);
            lemma_nf_more(f, f2, *b);
        },
        Term::Let(_, ot, v, b) => {
            lemma_nf_more(f, f2, *v);
            lemma_nf_more(f, f2, *b);
            match ot {
                Some(t0) => {
                    lemma_nf_more(f, f2, *t0);
                },
                None => {},
            }
        },
        _ => {},
    }
}

proof fn lemma_nf_node_more(f: nat, f2: nat, w: Term)
    requires
        f <= f2,
        spec_nf_children(f, w) is Some,
        w is App || w is Annot || w is Assert || w is BinOp || w is BoolIf || w is EmptyListLit
            || w is SomeLit || w is Merge || w is Field || w is Projection,
    ensures
        spec_nf_children(f2, w) == spec_nf_children(f, w),
    decreases f, 2nat, 0nat,
{
    match w {
        Term::App(g, a) => {
            lemma_nf_more(f, f2, *g);
            lemma_nf_more(f, f2, *a);
        },
        Term::Annot(a, b) => {
            lemma_nf_more(f, f2, *a);
            lemma_nf_more(f, f2, *b);
        },
        Term::Assert(a) => {
            lemma_nf_more(f, f2, *a);
        },
        Term::BinOp(_, l, r) => {
            lemma_nf_more(f, f2, *l);
            lemma_nf_more(f, f2, *r);
        },
        Term::BoolIf(c, a, b) => {
            lemma_nf_more(f, f2, *c);
            lemma_nf_more(f, f2, *a);
            lemma_nf_more(f, f2, *b);
        },
        Term::EmptyListLit(a) => {
            lemma_nf_more(f, f2, *a);
        },
        Term::SomeLit(a) => {
            lemma_nf_more(f, f2, *a);
        },
        Term::Merge(r, u, ot) => {
            lemma_nf_more(f, f2, *r);
            lemma_nf_more(f, f2, *u);
            match ot {
                Some(t0) => {
                    lemma_nf_more(f, f2, *t0);
                },
                None => {},
            }
        },
        Term::Field(r, _) => {
            lemma_nf_more(f, f2, *r);
        },
        Term::Projection(r, _) => {
            lemma_nf_more(f, f2, *r);
        },
        _ => {},
    }
}

proof fn lemma_nf_list_more(f: nat, f2: nat, w: Term)
    requires
        f <= f2,
        spec_nf_children(f, w) is Some,
        w is TextLit || w is NEListLit || w is RecordType || w is RecordLit || w is UnionType,
    ensures
        spec_nf_children(f2, w) == spec_nf_children(f, w),
    decreases f, 2nat, 0nat,
{
    match w {
        Term::TextLit(chunks, _) => {
            lemma_nf_fields_more(f, f2, chunks, chunks.len());
        },
        Term::NEListLit(a, rest) => {
            lemma_nf_more(f, f2, *a);
            lemma_nf_terms_more(f, f2, rest, rest.len());
        },
        Term::RecordType(fs) => {
            lemma_nf_fields_more(f, f2, fs, fs.len());
        },
        Term::RecordLit(fs) => {
            lemma_nf_fields_more(f, f2, fs, fs.len());
        },
        Term::UnionType(fs) => {
            lemma_nf_alts_more(f, f2, fs, fs.len());
        },
        _ => {},
    }
}

proof fn lemma_nf_children_more(f: nat, f2: nat, w: Term)
    requires
        f <= f2,
        spec_nf_children(f, w) is Some,
    ensures
        spec_nf_children(f2, w) == spec_nf_children(f, w),
    decreases f, 3nat, 0nat,
{
    match w {
        Term::Lam(_, _, _) | Term::Pi(_, _, _) | Term::Let(_, _, _, _) => lemma_nf_binder_more(
            f,
            f2,
            w,
        ),
        Term::TextLit(_, _) | Term::NEListLit(_, _) | Term::RecordType(_) | Term::RecordLit(_)
        | Term::UnionType(_) => lemma_nf_list_more(f, f2, w),
        Term::App(_, _) | Term::Annot(_, _) | Term::Assert(_) | Term::BinOp(_, _, _)
        | Term::BoolIf(_, _, _) | Term::EmptyListLit(_) | Term::SomeLit(_) | Term::Merge(_, _, _)
        | Term::Field(_, _) | Term::Projection(_, _) => lemma_nf_node_more(f, f2, w),
        _ => {},
    }
}

/// A greater budget never changes a normal form.
pub proof fn lemma_nf_more(f: nat, f2: nat, t: Term)
    requires
        f <= f2,
        spec_nf(f, t) is Some,
    ensures
        spec_nf(f2, t) == spec_nf(f, t),
    decreases f, 0nat, 0nat,
{
    if f > 0 {
        lemma_whnf_more(f, f2, t);
        lemma_nf_children_more((f - 1) as nat, (f2 - 1) as nat, spec_whnf(f, t)->Some_0);
    }
}

/// A greater budget never changes the outcome of a comparison.
pub proof fn lemma_equal_more(f: nat, f2: nat, a: Term, b: Term)
    requires
        f <= f2,
        crate::equality::spec_equal(f, a, b) is Some,
    ensures
        crate::equality::spec_equal(f2, a, b) == crate::equality::spec_equal(f, a, b),
{
    lemma_nf_more(f, f2, a);
    lemma_nf_more(f, f2, b);
}

} // verus!
