//! Equality of expressions up to the renaming of bound variables.
//!
//! Two expressions are compared side by side, with the list of the binders
//! that were crossed on the way: a pair of labels for each, the outermost
//! first. Records and union types are compared as mappings: the order of
//! their entries does not count.

use vstd::prelude::*;
use crate::normalize::{nf, spec_nf};
use crate::record::{find_alternative, find_field, index_of};
use crate::syntax::{
    alternatives_of, fields_of, names_of, terms_of, Alternatives, Expr, Fields, Name, Term, V,
};
use crate::var::same_name;

verus! {

/// The binders crossed on the two sides, as pairs of labels.
pub type Binders = Seq<(Name, Name)>;

/// Whether the variables `xl@nl` and `xr@nr` refer to the same place, under
/// the first `k` pairs of `ctx`.
///
/// Pairs are read from the innermost. A pair binds both variables where
/// it carries both names and both indices are zero: then they agree. Where
/// it binds only one of them, they differ. Otherwise the search goes on,
/// with the index lowered on each side whose name the pair carries. With no
/// pair left, both are free, and agree when they are the same variable.
pub open spec fn spec_match_vars(xl: Name, nl: nat, xr: Name, nr: nat, ctx: Binders, k: nat) -> bool
    decreases k,
{
    if k == 0 || k > ctx.len() {
        xl == xr && nl == nr
    } else {
        let (yl, yr) = ctx[k - 1];
        let here_l = xl == yl && nl == 0;
        let here_r = xr == yr && nr == 0;
        if here_l && here_r {
            true
        } else if here_l || here_r {
            false
        } else {
            spec_match_vars(
                xl,
                if xl == yl {
                    (nl - 1) as nat
                } else {
                    nl
                },
                xr,
                if xr == yr {
                    (nr - 1) as nat
                } else {
                    nr
                },
                ctx,
                (k - 1) as nat,
            )
        }
    }
}

/// Whether every one of the first `k` labels of `a` is a label of `b`.
pub open spec fn labels_within<S, T>(a: Seq<(Name, S)>, b: Seq<(Name, T)>, k: nat) -> bool
    decreases k,
{
    if k == 0 || k > a.len() {
        true
    } else {
        labels_within(a, b, (k - 1) as nat) && index_of(b, a[k - 1].0, 0) is Some
    }
}

/// Whether every one of the first `k` labels of `a` is one of `b`.
pub open spec fn names_within(a: Seq<Name>, b: Seq<Name>, k: nat) -> bool
    decreases k,
{
    if k == 0 || k > a.len() {
        true
    } else {
        names_within(a, b, (k - 1) as nat) && b.contains(a[k - 1])
    }
}

/// Whether the first `k` entries of `a` and of `b` agree pairwise: the same
/// text in front, and equal interpolations.
pub open spec fn spec_alpha_chunks(ctx: Binders, a: Fields, b: Fields, k: nat) -> bool
    decreases a, k,
{
    if k == 0 || k > a.len() || k > b.len() {
        true
    } else {
        spec_alpha_chunks(ctx, a, b, (k - 1) as nat) && a[k - 1].0 == b[k - 1].0 && spec_alpha_eq(
            ctx,
            a[k - 1].1,
            b[k - 1].1,
        )
    }
}

/// Whether the first `k` terms of `a` and of `b` are equal pairwise.
pub open spec fn spec_alpha_terms(ctx: Binders, a: Seq<Term>, b: Seq<Term>, k: nat) -> bool
    decreases a, k,
{
    if k == 0 || k > a.len() || k > b.len() {
        true
    } else {
        spec_alpha_terms(ctx, a, b, (k - 1) as nat) && spec_alpha_eq(ctx, a[k - 1], b[k - 1])
    }
}

/// Whether each of the first `k` fields of `a` has an equal field of the
/// same label in `b`.
pub open spec fn spec_alpha_fields(ctx: Binders, a: Fields, b: Fields, k: nat) -> bool
    decreases a, k,
{
    if k == 0 || k > a.len() {
        true
    } else {
        spec_alpha_fields(ctx, a, b, (k - 1) as nat) && match index_of(b, a[k - 1].0, 0) {
            Some(j) => spec_alpha_eq(ctx, a[k - 1].1, b[j as int].1),
            None => false,
        }
    }
}

/// Whether each of the first `k` alternatives of `a` has an equal
/// alternative of the same label in `b`.
pub open spec fn spec_alpha_alts(ctx: Binders, a: Alternatives, b: Alternatives, k: nat) -> bool
    decreases a, k,
{
    if k == 0 || k > a.len() {
        true
    } else {
        spec_alpha_alts(ctx, a, b, (k - 1) as nat) && match index_of(b, a[k - 1].0, 0) {
            Some(j) => match (a[k - 1].1, b[j as int].1) {
                (Some(x), Some(y)) => spec_alpha_eq(ctx, x, y),
                (None, None) => true,
                _ => false,
            },
            None => false,
        }
    }
}

/// Whether `a` and `b` are the same expression up to the names of their
/// bound variables, `ctx` being the binders crossed so far.
pub open spec fn spec_alpha_eq(ctx: Binders, a: Term, b: Term) -> bool
    decreases a, 0nat,
{
    match (a, b) {
        (Term::Const(c), Term::Const(d)) => c == d,
        (Term::Var(x, n), Term::Var(y, m)) => spec_match_vars(
            x,
            n as nat,
            y,
            m as nat,
            ctx,
            ctx.len(),
        ),
        (Term::Lam(x, t, u), Term::Lam(y, t2, u2)) => spec_alpha_eq(ctx, *t, *t2) && spec_alpha_eq(
            ctx.push((x, y)),
            *u,
            *u2,
        ),
        (Term::Pi(x, t, u), Term::Pi(y, t2, u2)) => spec_alpha_eq(ctx, *t, *t2) && spec_alpha_eq(
            ctx.push((x, y)),
            *u,
            *u2,
        ),
        (Term::App(f, x), Term::App(f2, x2)) => spec_alpha_eq(ctx, *f, *f2) && spec_alpha_eq(
            ctx,
            *x,
            *x2,
        ),
        (Term::Let(x, ot, v, u), Term::Let(y, ot2, v2, u2)) => (match (ot, ot2) {
            (Some(t), Some(t2)) => spec_alpha_eq(ctx, *t, *t2),
            (None, None) => true,
            _ => false,
        }) && spec_alpha_eq(ctx, *v, *v2) && spec_alpha_eq(ctx.push((x, y)), *u, *u2),
        (Term::Annot(x, t), Term::Annot(x2, t2)) => spec_alpha_eq(ctx, *x, *x2) && spec_alpha_eq(
            ctx,
            *t,
            *t2,
        ),
        (Term::Assert(x), Term::Assert(x2)) => spec_alpha_eq(ctx, *x, *x2),
        (Term::Builtin(c), Term::Builtin(d)) => c == d,
        (Term::BoolLit(c), Term::BoolLit(d)) => c == d,
        (Term::NaturalLit(c), Term::NaturalLit(d)) => c == d,
        (Term::IntegerLit(c), Term::IntegerLit(d)) => c == d,
        (Term::DoubleLit(c), Term::DoubleLit(d)) => c == d,
        (Term::TextLit(c, t), Term::TextLit(c2, t2)) => t == t2 && c.len() == c2.len()
            && spec_alpha_chunks(ctx, c, c2, c.len()),
        (Term::BinOp(o, l, r), Term::BinOp(o2, l2, r2)) => o == o2 && spec_alpha_eq(ctx, *l, *l2)
            && spec_alpha_eq(ctx, *r, *r2),
        (Term::BoolIf(c, x, y), Term::BoolIf(c2, x2, y2)) => spec_alpha_eq(ctx, *c, *c2)
            && spec_alpha_eq(ctx, *x, *x2) && spec_alpha_eq(ctx, *y, *y2),
        (Term::EmptyListLit(t), Term::EmptyListLit(t2)) => spec_alpha_eq(ctx, *t, *t2),
        (Term::NEListLit(x, xs), Term::NEListLit(y, ys)) => spec_alpha_eq(ctx, *x, *y) && xs.len()
            == ys.len() && spec_alpha_terms(ctx, xs, ys, xs.len()),
        (Term::SomeLit(x), Term::SomeLit(x2)) => spec_alpha_eq(ctx, *x, *x2),
        (Term::RecordType(f), Term::RecordType(g)) => f.len() == g.len() && spec_alpha_fields(
            ctx,
            f,
            g,
            f.len(),
        ) && labels_within(g, f, g.len()),
        (Term::RecordLit(f), Term::RecordLit(g)) => f.len() == g.len() && spec_alpha_fields(
            ctx,
            f,
            g,
            f.len(),
        ) && labels_within(g, f, g.len()),
        (Term::UnionType(f), Term::UnionType(g)) => f.len() == g.len() && spec_alpha_alts(
            ctx,
            f,
            g,
            f.len(),
        ) && labels_within(g, f, g.len()),
        (Term::Merge(h, u, ot), Term::Merge(h2, u2, ot2)) => spec_alpha_eq(ctx, *h, *h2)
            && spec_alpha_eq(ctx, *u, *u2) && (match (ot, ot2) {
            (Some(t), Some(t2)) => spec_alpha_eq(ctx, *t, *t2),
            (None, None) => true,
            _ => false,
        }),
        (Term::Field(r, l), Term::Field(r2, l2)) => l == l2 && spec_alpha_eq(ctx, *r, *r2),
        (Term::Projection(r, ls), Term::Projection(r2, ls2)) => spec_alpha_eq(ctx, *r, *r2)
            && names_within(ls, ls2, ls.len()) && names_within(ls2, ls, ls2.len()),
        _ => false,
    }
}

/// Whether `a` and `b` have equal normal forms, both found within the
/// budget `fuel`; `None` where the budget does not reach one of them.
pub open spec fn spec_equal(fuel: nat, a: Term, b: Term) -> Option<bool> {
    match (spec_nf(fuel, a), spec_nf(fuel, b)) {
        (Some(x), Some(y)) => Some(spec_alpha_eq(Seq::empty(), x, y)),
        _ => None,
    }
}

/// The model of a list of crossed binders.
pub open spec fn pairs_of(ctx: Vec<(String, String)>) -> Binders {
    Seq::new(ctx.len() as nat, |i: int| (ctx[i].0@, ctx[i].1@))
}

/// Whether the two variables refer to the same place under the binders
/// `ctx`.
pub fn match_vars(vl: &V, vr: &V, ctx: &Vec<(String, String)>) -> (r: bool)
    ensures
        r == spec_match_vars(
            vl.0@,
            vl.1 as nat,
            vr.0@,
            vr.1 as nat,
            pairs_of(*ctx),
            ctx.len() as nat,
        ),
{
    let mut nl: u64 = vl.1;
    let mut nr: u64 = vr.1;
    let mut k: usize = ctx.len();
    while k > 0
        invariant
            k <= ctx.len(),
            spec_match_vars(
                vl.0@,
                vl.1 as nat,
                vr.0@,
                vr.1 as nat,
                pairs_of(*ctx),
                ctx.len() as nat,
            ) == spec_match_vars(vl.0@, nl as nat, vr.0@, nr as nat, pairs_of(*ctx), k as nat),
        decreases k,
    {
        let is_l = same_name(&vl.0, &ctx[k - 1].0);
        let is_r = same_name(&vr.0, &ctx[k - 1].1);
        let here_l = is_l && nl == 0;
        let here_r = is_r && nr == 0;
        if here_l && here_r {
            return true;
        }
        if here_l || here_r {
            return false;
        }
        if is_l {
            nl = nl - 1;
        }
        if is_r {
            nr = nr - 1;
        }
        k = k - 1;
    }
    same_name(&vl.0, &vr.0) && nl == nr
}

fn with_binder(ctx: &Vec<(String, String)>, x: &String, y: &String) -> (r: Vec<(String, String)>)
    ensures
        pairs_of(r) == pairs_of(*ctx).push((x@, y@)),
{
    let mut out: Vec<(String, String)> = Vec::new();
    let mut i: usize = 0;
    while i < ctx.len()
        invariant
            i <= ctx.len(),
            out.len() == i,
            forall|j: int| 0 <= j < i ==> out[j].0@ == ctx[j].0@ && out[j].1@ == ctx[j].1@,
        decreases ctx.len() - i,
    {
        out.push((ctx[i].0.clone(), ctx[i].1.clone()));
        i += 1;
    }
    out.push((x.clone(), y.clone()));
    assert(pairs_of(out) =~= pairs_of(*ctx).push((x@, y@)));
    out
}

fn fields_within(a: &Vec<(String, Expr)>, b: &Vec<(String, Expr)>) -> (r: bool)
    ensures
        r == labels_within(fields_of(*a), fields_of(*b), a.len() as nat),
{
    let mut i: usize = 0;
    while i < a.len()
        invariant
            i <= a.len(),
            labels_within(fields_of(*a), fields_of(*b), i as nat),
        decreases a.len() - i,
    {
        if find_field(b, &a[i].0).is_none() {
            proof {
                lemma_labels_within_stays(fields_of(*a), fields_of(*b), (i + 1) as nat, a.len() as nat);
            }
            return false;
        }
        i += 1;
    }
    true
}

fn alts_within(a: &Vec<(String, Option<Expr>)>, b: &Vec<(String, Option<Expr>)>) -> (r: bool)
    ensures
        r == labels_within(alternatives_of(*a), alternatives_of(*b), a.len() as nat),
{
    let mut i: usize = 0;
    while i < a.len()
        invariant
            i <= a.len(),
            labels_within(alternatives_of(*a), alternatives_of(*b), i as nat),
        decreases a.len() - i,
    {
        if find_alternative(b, &a[i].0).is_none() {
            proof {
                lemma_labels_within_stays(
                    alternatives_of(*a),
                    alternatives_of(*b),
                    (i + 1) as nat,
                    a.len() as nat,
                );
            }
            return false;
        }
        i += 1;
    }
    true
}

proof fn lemma_labels_within_stays<S, T>(a: Seq<(Name, S)>, b: Seq<(Name, T)>, k: nat, n: nat)
    requires
        k <= n <= a.len(),
        !labels_within(a, b, k),
    ensures
        !labels_within(a, b, n),
    decreases n,
{
    if k < n {
        lemma_labels_within_stays(a, b, k, (n - 1) as nat);
    }
}

proof fn lemma_names_within_stays(a: Seq<Name>, b: Seq<Name>, k: nat, n: nat)
    requires
        k <= n <= a.len(),
        !names_within(a, b, k),
    ensures
        !names_within(a, b, n),
    decreases n,
{
    if k < n {
        lemma_names_within_stays(a, b, k, (n - 1) as nat);
    }
}

fn has_name(b: &Vec<String>, l: &String) -> (r: bool)
    ensures
        r == names_of(*b).contains(l@),
{
    let mut j: usize = 0;
    while j < b.len()
        invariant
            j <= b.len(),
            forall|i: int| 0 <= i < j ==> names_of(*b)[i] != l@,
        decreases b.len() - j,
    {
        if same_name(&b[j], l) {
            assert(names_of(*b)[j as int] == l@);
            return true;
        }
        j += 1;
    }
    false
}

fn all_names_within(a: &Vec<String>, b: &Vec<String>) -> (r: bool)
    ensures
        r == names_within(names_of(*a), names_of(*b), a.len() as nat),
{
    let mut i: usize = 0;
    while i < a.len()
        invariant
            i <= a.len(),
            names_within(names_of(*a), names_of(*b), i as nat),
        decreases a.len() - i,
    {
        if !has_name(b, &a[i]) {
            proof {
                lemma_names_within_stays(names_of(*a), names_of(*b), (i + 1) as nat, a.len() as nat);
            }
            return false;
        }
        i += 1;
    }
    true
}

proof fn lemma_alpha_chunks_stays(ctx: Binders, a: Fields, b: Fields, k: nat, n: nat)
    requires
        k <= n <= a.len(),
        n <= b.len(),
        !spec_alpha_chunks(ctx, a, b, k),
    ensures
        !spec_alpha_chunks(ctx, a, b, n),
    decreases n,
{
    if k < n {
        lemma_alpha_chunks_stays(ctx, a, b, k, (n - 1) as nat);
    }
}

proof fn lemma_alpha_terms_stays(ctx: Binders, a: Seq<Term>, b: Seq<Term>, k: nat, n: nat)
    requires
        k <= n <= a.len(),
        n <= b.len(),
        !spec_alpha_terms(ctx, a, b, k),
    ensures
        !spec_alpha_terms(ctx, a, b, n),
    decreases n,
{
    if k < n {
        lemma_alpha_terms_stays(ctx, a, b, k, (n - 1) as nat);
    }
}

proof fn lemma_alpha_fields_stays(ctx: Binders, a: Fields, b: Fields, k: nat, n: nat)
    requires
        k <= n <= a.len(),
        !spec_alpha_fields(ctx, a, b, k),
    ensures
        !spec_alpha_fields(ctx, a, b, n),
    decreases n,
{
    if k < n {
        lemma_alpha_fields_stays(ctx, a, b, k, (n - 1) as nat);
    }
}

proof fn lemma_alpha_alts_stays(ctx: Binders, a: Alternatives, b: Alternatives, k: nat, n: nat)
    requires
        k <= n <= a.len(),
        !spec_alpha_alts(ctx, a, b, k),
    ensures
        !spec_alpha_alts(ctx, a, b, n),
    decreases n,
{
    if k < n {
        lemma_alpha_alts_stays(ctx, a, b, k, (n - 1) as nat);
    }
}

fn alpha_chunks(ctx: &Vec<(String, String)>, a: &Vec<(String, Expr)>, b: &Vec<(String, Expr)>) -> (r:
    bool)
    requires
        a.len() == b.len(),
    ensures
        r == spec_alpha_chunks(pairs_of(*ctx), fields_of(*a), fields_of(*b), a.len() as nat),
    decreases a, 1nat,
{
    let mut i: usize = 0;
    while i < a.len()
        invariant
            i <= a.len(),
            a.len() == b.len(),
            spec_alpha_chunks(pairs_of(*ctx), fields_of(*a), fields_of(*b), i as nat),
        decreases a.len() - i,
    {
        proof {
            assert(decreases_to!(*a => a[i as int]));
            assert(decreases_to!(a[i as int] => a[i as int].1));
        }
        if !(same_name(&a[i].0, &b[i].0) && alpha_eq(ctx, &a[i].1, &b[i].1)) {
            proof {
                lemma_alpha_chunks_stays(
                    pairs_of(*ctx),
                    fields_of(*a),
                    fields_of(*b),
                    (i + 1) as nat,
                    a.len() as nat,
                );
            }
            return false;
        }
        i += 1;
    }
    true
}

fn alpha_terms(ctx: &Vec<(String, String)>, a: &Vec<Expr>, b: &Vec<Expr>) -> (r: bool)
    requires
        a.len() == b.len(),
    ensures
        r == spec_alpha_terms(pairs_of(*ctx), terms_of(*a), terms_of(*b), a.len() as nat),
    decreases a, 1nat,
{
    let mut i: usize = 0;
    while i < a.len()
        invariant
            i <= a.len(),
            a.len() == b.len(),
            spec_alpha_terms(pairs_of(*ctx), terms_of(*a), terms_of(*b), i as nat),
        decreases a.len() - i,
    {
        if !alpha_eq(ctx, &a[i], &b[i]) {
            proof {
                lemma_alpha_terms_stays(
                    pairs_of(*ctx),
                    terms_of(*a),
                    terms_of(*b),
                    (i + 1) as nat,
                    a.len() as nat,
                );
            }
            return false;
        }
        i += 1;
    }
    true
}

fn alpha_fields(ctx: &Vec<(String, String)>, a: &Vec<(String, Expr)>, b: &Vec<(String, Expr)>) -> (r:
    bool)
    ensures
        r == spec_alpha_fields(pairs_of(*ctx), fields_of(*a), fields_of(*b), a.len() as nat),
    decreases a, 1nat,
{
    let mut i: usize = 0;
    while i < a.len()
        invariant
            i <= a.len(),
            spec_alpha_fields(pairs_of(*ctx), fields_of(*a), fields_of(*b), i as nat),
        decreases a.len() - i,
    {
        proof {
            assert(decreases_to!(*a => a[i as int]));
            assert(decreases_to!(a[i as int] => a[i as int].1));
        }
        let same = match find_field(b, &a[i].0) {
            Some(j) => alpha_eq(ctx, &a[i].1, &b[j].1),
            None => false,
        };
        if !same {
            proof {
                lemma_alpha_fields_stays(
                    pairs_of(*ctx),
                    fields_of(*a),
                    fields_of(*b),
                    (i + 1) as nat,
                    a.len() as nat,
                );
            }
            return false;
        }
        i += 1;
    }
    true
}

fn alpha_alts(
    ctx: &Vec<(String, String)>,
    a: &Vec<(String, Option<Expr>)>,
    b: &Vec<(String, Option<Expr>)>,
) -> (r: bool)
    ensures
        r == spec_alpha_alts(
            pairs_of(*ctx),
            alternatives_of(*a),
            alternatives_of(*b),
            a.len() as nat,
        ),
    decreases a, 1nat,
{
    let mut i: usize = 0;
    while i < a.len()
        invariant
            i <= a.len(),
            spec_alpha_alts(pairs_of(*ctx), alternatives_of(*a), alternatives_of(*b), i as nat),
        decreases a.len() - i,
    {
        let same = match find_alternative(b, &a[i].0) {
            Some(j) => match (&a[i].1, &b[j].1) {
                (Some(x), Some(y)) => {
                    proof {
                        assert(decreases_to!(*a => a[i as int]));
                        assert(decreases_to!(a[i as int] => a[i as int].1));
                        assert(decreases_to!(a[i as int].1 => a[i as int].1->Some_0));
                    }
                    alpha_eq(ctx, x, y)
                },
                (None, None) => true,
                _ => false,
            },
            None => false,
        };
        if !same {
            proof {
                lemma_alpha_alts_stays(
                    pairs_of(*ctx),
                    alternatives_of(*a),
                    alternatives_of(*b),
                    (i + 1) as nat,
                    a.len() as nat,
                );
            }
            return false;
        }
        i += 1;
    }
    true
}

fn alpha_opt(ctx: &Vec<(String, String)>, a: &Option<Box<Expr>>, b: &Option<Box<Expr>>) -> (r: bool)
    ensures
        r == match (*a, *b) {
            (Some(t), Some(t2)) => spec_alpha_eq(pairs_of(*ctx), t@, t2@),
            (None, None) => true,
            _ => false,
        },
    decreases a, 1nat,
{
    match (a, b) {
        (Some(t), Some(t2)) => alpha_eq(ctx, t, t2),
        (None, None) => true,
        _ => false,
    }
}

fn alpha_leaves(ctx: &Vec<(String, String)>, a: &Expr, b: &Expr) -> (r: bool)
    requires
        a is Const || a is Var || a is Builtin || a is BoolLit || a is NaturalLit || a is IntegerLit || a is DoubleLit,
    ensures
        r == spec_alpha_eq(pairs_of(*ctx), a@, b@),
    decreases a, 0nat,
{
    match a {
        Expr::Const(c) => match b {
            Expr::Const(d) => *c == *d,
            _ => false,
        },
        Expr::Var(v) => match b {
            Expr::Var(w) => match_vars(v, w, ctx),
            _ => false,
        },
        Expr::Builtin(c) => match b {
            Expr::Builtin(d) => *c == *d,
            _ => false,
        },
        Expr::BoolLit(c) => match b {
            Expr::BoolLit(d) => *c == *d,
            _ => false,
        },
        Expr::NaturalLit(c) => match b {
            Expr::NaturalLit(d) => *c == *d,
            _ => false,
        },
        Expr::IntegerLit(c) => match b {
            Expr::IntegerLit(d) => *c == *d,
            _ => false,
        },
        Expr::DoubleLit(c) => match b {
            Expr::DoubleLit(d) => *c == *d,
            _ => false,
        },
        _ => false,
    }
}

fn alpha_binders(ctx: &Vec<(String, String)>, a: &Expr, b: &Expr) -> (r: bool)
    requires
        a is Lam || a is Pi || a is Let || a is App || a is Annot || a is Assert,
    ensures
        r == spec_alpha_eq(pairs_of(*ctx), a@, b@),
    decreases a, 0nat,
{
    match a {
        Expr::Lam(x, t, u) => match b {
            Expr::Lam(y, t2, u2) => {
                if !alpha_eq(ctx, t, t2) {
                    return false;
                }
                let ctx2 = with_binder(ctx, x, y);
                alpha_eq(&ctx2, u, u2)
            },
            _ => false,
        },
        Expr::Pi(x, t, u) => match b {
            Expr::Pi(y, t2, u2) => {
                if !alpha_eq(ctx, t, t2) {
                    return false;
                }
                let ctx2 = with_binder(ctx, x, y);
                alpha_eq(&ctx2, u, u2)
            },
            _ => false,
        },
        Expr::App(f, x) => match b {
            Expr::App(f2, x2) => alpha_eq(ctx, f, f2) && alpha_eq(ctx, x, x2),
            _ => false,
        },
        Expr::Let(x, ot, v, u) => match b {
            Expr::Let(y, ot2, v2, u2) => {
                if !(alpha_opt(ctx, ot, ot2) && alpha_eq(ctx, v, v2)) {
                    return false;
                }
                let ctx2 = with_binder(ctx, x, y);
                alpha_eq(&ctx2, u, u2)
            },
            _ => false,
        },
        Expr::Annot(x, t) => match b {
            Expr::Annot(x2, t2) => alpha_eq(ctx, x, x2) && alpha_eq(ctx, t, t2),
            _ => false,
        },
        Expr::Assert(x) => match b {
            Expr::Assert(x2) => alpha_eq(ctx, x, x2),
            _ => false,
        },
        _ => false,
    }
}

fn alpha_nodes(ctx: &Vec<(String, String)>, a: &Expr, b: &Expr) -> (r: bool)
    requires
        a is TextLit || a is BinOp || a is BoolIf || a is EmptyListLit || a is NEListLit || a is SomeLit,
    ensures
        r == spec_alpha_eq(pairs_of(*ctx), a@, b@),
    decreases a, 0nat,
{
    match a {
        Expr::TextLit(c, t) => match b {
            Expr::TextLit(c2, t2) => {
                assert(fields_of(*c).len() == c.len());
                assert(fields_of(*c2).len() == c2.len());
                if !same_name(t, t2) || c.len() != c2.len() {
                    return false;
                }
                alpha_chunks(ctx, c, c2)
            },
            _ => false,
        },
        Expr::BinOp(o, l, r) => match b {
            Expr::BinOp(o2, l2, r2) => *o == *o2 && alpha_eq(ctx, l, l2) && alpha_eq(ctx, r, r2),
            _ => false,
        },
        Expr::BoolIf(c, x, y) => match b {
            Expr::BoolIf(c2, x2, y2) => alpha_eq(ctx, c, c2) && alpha_eq(ctx, x, x2) && alpha_eq(
                ctx,
                y,
                y2,
            ),
            _ => false,
        },
        Expr::EmptyListLit(t) => match b {
            Expr::EmptyListLit(t2) => alpha_eq(ctx, t, t2),
            _ => false,
        },
        Expr::NEListLit(x, xs) => match b {
            Expr::NEListLit(y, ys) => {
                assert(terms_of(*xs).len() == xs.len());
                assert(terms_of(*ys).len() == ys.len());
                alpha_eq(ctx, x, y) && xs.len() == ys.len() && alpha_terms(ctx, xs, ys)
            },
            _ => false,
        },
        Expr::SomeLit(x) => match b {
            Expr::SomeLit(x2) => alpha_eq(ctx, x, x2),
            _ => false,
        },
        _ => false,
    }
}

fn alpha_records(ctx: &Vec<(String, String)>, a: &Expr, b: &Expr) -> (r: bool)
    requires
        a is RecordType || a is RecordLit || a is UnionType || a is Merge || a is Field || a is Projection,
    ensures
        r == spec_alpha_eq(pairs_of(*ctx), a@, b@),
    decreases a, 0nat,
{
    match a {
        Expr::RecordType(f) => match b {
            Expr::RecordType(g) => f.len() == g.len() && alpha_fields(ctx, f, g) && fields_within(
                g,
                f,
            ),
            _ => false,
        },
        Expr::RecordLit(f) => match b {
            Expr::RecordLit(g) => f.len() == g.len() && alpha_fields(ctx, f, g) && fields_within(
                g,
                f,
            ),
            _ => false,
        },
        Expr::UnionType(f) => match b {
            Expr::UnionType(g) => f.len() == g.len() && alpha_alts(ctx, f, g) && alts_within(g, f),
            _ => false,
        },
        Expr::Merge(h, u, ot) => match b {
            Expr::Merge(h2, u2, ot2) => alpha_eq(ctx, h, h2) && alpha_eq(ctx, u, u2) && alpha_opt(
                ctx,
                ot,
                ot2,
            ),
            _ => false,
        },
        Expr::Field(r, l) => match b {
            Expr::Field(r2, l2) => same_name(l, l2) && alpha_eq(ctx, r, r2),
            _ => false,
        },
        Expr::Projection(r, ls) => match b {
            Expr::Projection(r2, ls2) => alpha_eq(ctx, r, r2) && all_names_within(ls, ls2)
                && all_names_within(ls2, ls),
            _ => false,
        },
        _ => false,
    }
}

/// Whether `a` and `b` are the same up to the names of their bound
/// variables, under the binders `ctx`.
pub fn alpha_eq(ctx: &Vec<(String, String)>, a: &Expr, b: &Expr) -> (r: bool)
    ensures
        r == spec_alpha_eq(pairs_of(*ctx), a@, b@),
    decreases a, 1nat,
{
    match a {
        Expr::Const(_) | Expr::Var(_) | Expr::Builtin(_) | Expr::BoolLit(_) | Expr::NaturalLit(_)
        | Expr::IntegerLit(_) | Expr::DoubleLit(_) => alpha_leaves(ctx, a, b),
        Expr::Lam(_, _, _) | Expr::Pi(_, _, _) | Expr::Let(_, _, _, _) | Expr::App(_, _)
        | Expr::Annot(_, _) | Expr::Assert(_) => alpha_binders(ctx, a, b),
        Expr::TextLit(_, _) | Expr::BinOp(_, _, _) | Expr::BoolIf(_, _, _) | Expr::EmptyListLit(_)
        | Expr::NEListLit(_, _) | Expr::SomeLit(_) => alpha_nodes(ctx, a, b),
        _ => alpha_records(ctx, a, b),
    }
}

/// Whether `a` and `b` are equal: whether their normal forms, found within
/// the budget `fuel`, are the same up to the names of bound variables.
pub fn prop_equal(a: &Expr, b: &Expr, fuel: u64) -> (r: Option<bool>)
    ensures
        r == spec_equal(fuel as nat, a@, b@),
{
    let x = nf(a, fuel);
    let y = nf(b, fuel);
    match (x, y) {
        (Some(x), Some(y)) => {
            let ctx: Vec<(String, String)> = Vec::new();
            assert(pairs_of(ctx) =~= Seq::empty());
            Some(alpha_eq(&ctx, &x, &y))
        },
        _ => None,
    }
}

} // verus!
