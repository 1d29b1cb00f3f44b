//! Laws of equality: the name of a bound variable does not count.

use vstd::prelude::*;
use crate::equality::{
    labels_within, names_within, spec_alpha_alts, spec_alpha_chunks, spec_alpha_eq,
    spec_alpha_fields, spec_alpha_terms, spec_match_vars, Binders,
};
use crate::record::index_of;
use crate::syntax::{Alternatives, Fields, Name, Term};
use crate::var::{
    spec_rename, spec_shift, spec_subst_alts, spec_subst_fields, spec_subst_shift,
    spec_subst_terms, under,
};

verus! {

/// No two entries of `fs` have the same label.
pub open spec fn distinct_labels<T>(fs: Seq<(Name, T)>) -> bool {
    forall|i: int| 0 <= i < fs.len() ==> index_of(fs, (#[trigger] fs[i]).0, 0) == Some(i as nat)
}

/// `renamable` for the first `k` of a list of labelled terms.
pub open spec fn renamable_fields(y: Name, fs: Fields, k: nat) -> bool
    decreases fs, k,
{
    if k == 0 || k > fs.len() {
        true
    } else {
        renamable_fields(y, fs, (k - 1) as nat) && renamable(y, fs[k - 1].1)
    }
}

/// `renamable` for the first `k` of a list of terms.
pub open spec fn renamable_terms(y: Name, ts: Seq<Term>, k: nat) -> bool
    decreases ts, k,
{
    if k == 0 || k > ts.len() {
        true
    } else {
        renamable_terms(y, ts, (k - 1) as nat) && renamable(y, ts[k - 1])
    }
}

/// `renamable` for the first `k` alternatives of a union type.
pub open spec fn renamable_alts(y: Name, fs: Alternatives, k: nat) -> bool
    decreases fs, k,
{
    if k == 0 || k > fs.len() {
        true
    } else {
        renamable_alts(y, fs, (k - 1) as nat) && match fs[k - 1].1 {
            Some(t) => renamable(y, t),
            None => true,
        }
    }
}

/// A bound variable of `t` may be renamed to `y`: `y` is fresh for `t`,
/// the name of none of its variables and of none of its binders, and no
/// record or union of `t` has a label twice.
pub open spec fn renamable(y: Name, t: Term) -> bool
    decreases t, 0nat,
{
    match t {
        Term::Var(z, _) => z != y,
        Term::Lam(z, a, b) => z != y && renamable(y, *a) && renamable(y, *b),
        Term::Pi(z, a, b) => z != y && renamable(y, *a) && renamable(y, *b),
        Term::Let(z, ot, v, b) => z != y && renamable(y, *v) && renamable(y, *b) && (match ot {
            Some(t0) => renamable(y, *t0),
            None => true,
        }),
        Term::App(f, a) => renamable(y, *f) && renamable(y, *a),
        Term::Annot(a, b) => renamable(y, *a) && renamable(y, *b),
        Term::Assert(a) => renamable(y, *a),
        Term::TextLit(chunks, _) => renamable_fields(y, chunks, chunks.len()),
        Term::BinOp(_, l, r) => renamable(y, *l) && renamable(y, *r),
        Term::BoolIf(c, a, b) => renamable(y, *c) && renamable(y, *a) && renamable(y, *b),
        Term::EmptyListLit(a) => renamable(y, *a),
        Term::NEListLit(a, rest) => renamable(y, *a) && renamable_terms(y, rest, rest.len()),
        Term::SomeLit(a) => renamable(y, *a),
        Term::RecordType(fs) => distinct_labels(fs) && renamable_fields(y, fs, fs.len()),
        Term::RecordLit(fs) => distinct_labels(fs) && renamable_fields(y, fs, fs.len()),
        Term::UnionType(fs) => distinct_labels(fs) && renamable_alts(y, fs, fs.len()),
        Term::Merge(r, u, ot) => renamable(y, *r) && renamable(y, *u) && (match ot {
            Some(t0) => renamable(y, *t0),
            None => true,
        }),
        Term::Field(r, _) => renamable(y, *r),
        Term::Projection(r, _) => renamable(y, *r),
        _ => true,
    }
}

/// The binders `ctx` are those of a renaming of `x` to `y`: the pair at
/// `d` is `(x, y)`, every other pair has one name twice, and none of the
/// pairs inside it has the name `y`.
pub open spec fn renaming(ctx: Binders, d: nat, x: Name, y: Name) -> bool {
    &&& x != y
    &&& d < ctx.len()
    &&& ctx[d as int] == (x, y)
    &&& forall|j: int| 0 <= j < ctx.len() && j != d ==> (#[trigger] ctx[j]).0 == ctx[j].1
    &&& forall|j: int| d < j < ctx.len() ==> (#[trigger] ctx[j]).0 != y
}

/// How many of the pairs of `ctx` from `lo` to `k` bind `x` on the left.
pub open spec fn count(ctx: Binders, x: Name, lo: nat, k: nat) -> nat
    decreases k,
{
    if k <= lo || k > ctx.len() {
        0
    } else {
        count(ctx, x, lo, (k - 1) as nat) + if ctx[k - 1].0 == x {
            1nat
        } else {
            0nat
        }
    }
}

proof fn lemma_match_same(ctx: Binders, z: Name, m: nat, k: nat)
    requires
        k <= ctx.len(),
        forall|j: int|
            0 <= j < k ==> (#[trigger] ctx[j]).0 == ctx[j].1 || (ctx[j].0 != z && ctx[j].1 != z),
    ensures
        spec_match_vars(z, m, z, m, ctx, k),
    decreases k,
{
    if k > 0 {
        let p = ctx[k - 1];
        if p.0 == z && m > 0 {
            lemma_match_same(ctx, z, (m - 1) as nat, (k - 1) as nat);
        } else {
            lemma_match_same(ctx, z, m, (k - 1) as nat);
        }
    }
}

proof fn lemma_match_bound(ctx: Binders, d: nat, x: Name, y: Name, k: nat)
    requires
        renaming(ctx, d, x, y),
        d < k <= ctx.len(),
    ensures
        spec_match_vars(x, count(ctx, x, d + 1, k), y, 0, ctx, k),
    decreases k,
{
    if k > d + 1 {
        let p = ctx[k - 1];
        lemma_match_bound(ctx, d, x, y, (k - 1) as nat);
    }
}

proof fn lemma_match_above(ctx: Binders, d: nat, x: Name, y: Name, k: nat, m: nat)
    requires
        renaming(ctx, d, x, y),
        d < k <= ctx.len(),
        m > count(ctx, x, d + 1, k),
    ensures
        spec_match_vars(x, m, x, (m - 1) as nat, ctx, k),
    decreases k,
{
    let p = ctx[k - 1];
    if k == d + 1 {
        lemma_match_same(ctx, x, (m - 1) as nat, d);
    } else if p.0 == x {
        lemma_match_above(ctx, d, x, y, (k - 1) as nat, (m - 1) as nat);
    } else {
        lemma_match_above(ctx, d, x, y, (k - 1) as nat, m);
    }
}

proof fn lemma_match_below(ctx: Binders, d: nat, x: Name, y: Name, k: nat, m: nat)
    requires
        renaming(ctx, d, x, y),
        d < k <= ctx.len(),
        m < count(ctx, x, d + 1, k),
    ensures
        spec_match_vars(x, m, x, m, ctx, k),
    decreases k,
{
    let p = ctx[k - 1];
    if k > d + 1 {
        if p.0 == x {
            if m > 0 {
                lemma_match_below(ctx, d, x, y, (k - 1) as nat, (m - 1) as nat);
            }
        } else {
            lemma_match_below(ctx, d, x, y, (k - 1) as nat, m);
        }
    }
}

proof fn lemma_count_push(ctx: Binders, x: Name, lo: nat, k: nat, p: (Name, Name))
    requires
        k <= ctx.len(),
    ensures
        count(ctx.push(p), x, lo, k) == count(ctx, x, lo, k),
    decreases k,
{
    if k > lo {
        lemma_count_push(ctx, x, lo, (k - 1) as nat, p);
    }
}

proof fn lemma_renaming_push(ctx: Binders, d: nat, x: Name, y: Name, n: nat, z: Name)
    requires
        renaming(ctx, d, x, y),
        n == count(ctx, x, d + 1, ctx.len()),
        z != y,
    ensures
        renaming(ctx.push((z, z)), d, x, y),
        under(x, n, z) == count(ctx.push((z, z)), x, d + 1, ctx.len() + 1),
        spec_shift(1, z, 0, Term::Var(y, 0)) == Some(Term::Var(y, 0)),
{
    let c2 = ctx.push((z, z));
    lemma_count_push(ctx, x, d + 1, ctx.len(), (z, z));
    assert forall|j: int| 0 <= j < c2.len() && j != d implies (#[trigger] c2[j]).0 == c2[j].1 by {
        if j < ctx.len() {
            assert(c2[j] == ctx[j]);
        }
    }
    assert forall|j: int| d < j < c2.len() implies (#[trigger] c2[j]).0 != y by {
        if j < ctx.len() {
            assert(c2[j] == ctx[j]);
        }
    }
}

proof fn lemma_rename_var(ctx: Binders, d: nat, x: Name, y: Name, n: nat, t: Term)
    requires
        renaming(ctx, d, x, y),
        n == count(ctx, x, d + 1, ctx.len()),
        t is Var,
        renamable(y, t),
    ensures
        spec_subst_shift(x, n, Term::Var(y, 0), t) matches Some(t2) && spec_alpha_eq(ctx, t, t2),
{
    let z = t->Var_0;
    let m = t->Var_1;
    if z == x {
        if m == n {
            lemma_match_bound(ctx, d, x, y, ctx.len());
        } else if m > n {
            lemma_match_above(ctx, d, x, y, ctx.len(), m as nat);
        } else {
            lemma_match_below(ctx, d, x, y, ctx.len(), m as nat);
        }
    } else {
        lemma_match_same(ctx, z, m as nat, ctx.len());
    }
}

proof fn lemma_index_same_labels<S, T>(a: Seq<(Name, S)>, b: Seq<(Name, T)>, l: Name, from: nat)
    requires
        a.len() == b.len(),
        forall|i: int| 0 <= i < a.len() ==> (#[trigger] a[i]).0 == b[i].0,
    ensures
        index_of(a, l, from) == index_of(b, l, from),
    decreases a.len() - from,
{
    if from < a.len() {
        assert(a[from as int].0 == b[from as int].0);
        if a[from as int].0 != l {
            lemma_index_same_labels(a, b, l, from + 1);
        }
    }
}

proof fn lemma_labels_within_same<S, T>(a: Seq<(Name, S)>, b: Seq<(Name, T)>, k: nat)
    requires
        a.len() == b.len(),
        k <= a.len(),
        forall|i: int| 0 <= i < a.len() ==> (#[trigger] a[i]).0 == b[i].0,
        distinct_labels(b),
    ensures
        labels_within(a, b, k),
    decreases k,
{
    if k > 0 {
        lemma_labels_within_same(a, b, (k - 1) as nat);
        assert(a[k - 1].0 == b[k - 1].0);
        assert(index_of(b, b[k - 1].0, 0) == Some((k - 1) as nat));
    }
}

/// What the renaming lemma states of a term.
spec fn renamed(ctx: Binders, x: Name, y: Name, n: nat, t: Term) -> bool {
    spec_subst_shift(x, n, Term::Var(y, 0), t) matches Some(t2) && spec_alpha_eq(ctx, t, t2)
}

proof fn lemma_rename_fields(ctx: Binders, d: nat, x: Name, y: Name, n: nat, fs: Fields, k: nat)
    requires
        renaming(ctx, d, x, y),
        n == count(ctx, x, d + 1, ctx.len()),
        renamable_fields(y, fs, k),
        k <= fs.len(),
    ensures
        spec_subst_fields(x, n, Term::Var(y, 0), fs, k) matches Some(out) && out.len() == k
            && forall|i: int|
            0 <= i < k ==> (#[trigger] out[i]).0 == fs[i].0 && spec_alpha_eq(
                ctx,
                fs[i].1,
                out[i].1,
            ),
    decreases fs, k,
{
    if k > 0 {
        lemma_rename_fields(ctx, d, x, y, n, fs, (k - 1) as nat);
        lemma_rename_term(ctx, d, x, y, n, fs[k - 1].1);
    }
}

proof fn lemma_rename_terms(ctx: Binders, d: nat, x: Name, y: Name, n: nat, ts: Seq<Term>, k: nat)
    requires
        renaming(ctx, d, x, y),
        n == count(ctx, x, d + 1, ctx.len()),
        renamable_terms(y, ts, k),
        k <= ts.len(),
    ensures
        spec_subst_terms(x, n, Term::Var(y, 0), ts, k) matches Some(out) && out.len() == k
            && forall|i: int| 0 <= i < k ==> spec_alpha_eq(ctx, ts[i], #[trigger] out[i]),
    decreases ts, k,
{
    if k > 0 {
        lemma_rename_terms(ctx, d, x, y, n, ts, (k - 1) as nat);
        lemma_rename_term(ctx, d, x, y, n, ts[k - 1]);
    }
}

proof fn lemma_rename_alts(ctx: Binders, d: nat, x: Name, y: Name, n: nat, fs: Alternatives, k: nat)
    requires
        renaming(ctx, d, x, y),
        n == count(ctx, x, d + 1, ctx.len()),
        renamable_alts(y, fs, k),
        k <= fs.len(),
    ensures
        spec_subst_alts(x, n, Term::Var(y, 0), fs, k) matches Some(out) && out.len() == k
            && forall|i: int|
            0 <= i < k ==> (#[trigger] out[i]).0 == fs[i].0 && (match (fs[i].1, out[i].1) {
                (Some(a), Some(b)) => spec_alpha_eq(ctx, a, b),
                (None, None) => true,
                _ => false,
            }),
    decreases fs, k,
{
    if k > 0 {
        lemma_rename_alts(ctx, d, x, y, n, fs, (k - 1) as nat);
        match fs[k - 1].1 {
            Some(t0) => {
                lemma_rename_term(ctx, d, x, y, n, t0);
            },
            None => {},
        }
    }
}

proof fn lemma_fields_equal(ctx: Binders, a: Fields, b: Fields, k: nat)
    requires
        a.len() == b.len(),
        k <= a.len(),
        distinct_labels(a),
        forall|i: int|
            0 <= i < a.len() ==> (#[trigger] b[i]).0 == a[i].0 && spec_alpha_eq(
                ctx,
                a[i].1,
                b[i].1,
            ),
    ensures
        spec_alpha_fields(ctx, a, b, k),
        labels_within(b, a, k),
    decreases k,
{
    if k > 0 {
        lemma_fields_equal(ctx, a, b, (k - 1) as nat);
        assert(b[k - 1].0 == a[k - 1].0);
        assert(index_of(a, a[k - 1].0, 0) == Some((k - 1) as nat));
        assert forall|i: int| 0 <= i < a.len() implies (#[trigger] a[i]).0 == b[i].0 by {
            assert(b[i].0 == a[i].0);
        }
        lemma_index_same_labels(a, b, a[k - 1].0, 0);
    }
}

proof fn lemma_alts_equal(ctx: Binders, a: Alternatives, b: Alternatives, k: nat)
    requires
        a.len() == b.len(),
        k <= a.len(),
        distinct_labels(a),
        forall|i: int|
            0 <= i < a.len() ==> (#[trigger] b[i]).0 == a[i].0 && (match (a[i].1, b[i].1) {
                (Some(s), Some(t)) => spec_alpha_eq(ctx, s, t),
                (None, None) => true,
                _ => false,
            }),
    ensures
        spec_alpha_alts(ctx, a, b, k),
        labels_within(b, a, k),
    decreases k,
{
    if k > 0 {
        lemma_alts_equal(ctx, a, b, (k - 1) as nat);
        assert(b[k - 1].0 == a[k - 1].0);
        assert(index_of(a, a[k - 1].0, 0) == Some((k - 1) as nat));
        assert forall|i: int| 0 <= i < a.len() implies (#[trigger] a[i]).0 == b[i].0 by {
            assert(b[i].0 == a[i].0);
        }
        lemma_index_same_labels(a, b, a[k - 1].0, 0);
    }
}

proof fn lemma_chunks_equal(ctx: Binders, a: Fields, b: Fields, k: nat)
    requires
        a.len() == b.len(),
        k <= a.len(),
        forall|i: int|
            0 <= i < a.len() ==> (#[trigger] b[i]).0 == a[i].0 && spec_alpha_eq(
                ctx,
                a[i].1,
                b[i].1,
            ),
    ensures
        spec_alpha_chunks(ctx, a, b, k),
    decreases k,
{
    if k > 0 {
        lemma_chunks_equal(ctx, a, b, (k - 1) as nat);
        assert(b[k - 1].0 == a[k - 1].0);
    }
}

proof fn lemma_terms_equal(ctx: Binders, a: Seq<Term>, b: Seq<Term>, k: nat)
    requires
        a.len() == b.len(),
        k <= a.len(),
        forall|i: int| 0 <= i < a.len() ==> spec_alpha_eq(ctx, a[i], #[trigger] b[i]),
    ensures
        spec_alpha_terms(ctx, a, b, k),
    decreases k,
{
    if k > 0 {
        lemma_terms_equal(ctx, a, b, (k - 1) as nat);
        assert(spec_alpha_eq(ctx, a[k - 1], b[k - 1]));
    }
}

proof fn lemma_names_within_self(ls: Seq<Name>, k: nat)
    requires
        k <= ls.len(),
    ensures
        names_within(ls, ls, k),
    decreases k,
{
    if k > 0 {
        lemma_names_within_self(ls, (k - 1) as nat);
        assert(ls[k - 1] == ls[k - 1]);
    }
}

#[verifier::rlimit(50)]
proof fn lemma_rename_binder(ctx: Binders, d: nat, x: Name, y: Name, n: nat, t: Term)
    requires
        renaming(ctx, d, x, y),
        n == count(ctx, x, d + 1, ctx.len()),
        renamable(y, t),
        t is Lam || t is Pi || t is Let,
    ensures
        renamed(ctx, x, y, n, t),
    decreases t, 0nat,
{
    match t {
        Term::Lam(z, a, b) => {
            lemma_renaming_push(ctx, d, x, y, n, z);
            lemma_rename_term(ctx, d, x, y, n, *a);
            lemma_rename_term(ctx.push((z, z)), d, x, y, under(x, n, z), *b);
        },
        Term::Pi(z, a, b) => {
            lemma_renaming_push(ctx, d, x, y, n, z);
            lemma_rename_term(ctx, d, x, y, n, *a);
            lemma_rename_term(ctx.push((z, z)), d, x, y, under(x, n, z), *b);
        },
        Term::Let(z, ot, v, b) => {
            lemma_renaming_push(ctx, d, x, y, n, z);
            lemma_rename_term(ctx, d, x, y, n, *v);
            lemma_rename_term(ctx.push((z, z)), d, x, y, under(x, n, z), *b);
            match ot {
                Some(t0) => {
                    lemma_rename_term(ctx, d, x, y, n, *t0);
                },
                None => {},
            }
        },
        _ => {},
    }
}

proof fn lemma_rename_node_a(ctx: Binders, d: nat, x: Name, y: Name, n: nat, t: Term)
    requires
        renaming(ctx, d, x, y),
        n == count(ctx, x, d + 1, ctx.len()),
        renamable(y, t),
        t is App || t is Annot || t is Assert || t is BinOp || t is BoolIf,
    ensures
        renamed(ctx, x, y, n, t),
    decreases t, 0nat,
{
    match t {
        Term::App(f, a) => {
            lemma_rename_term(ctx, d, x, y, n, *f);
            lemma_rename_term(ctx, d, x, y, n, *a);
        },
        Term::Annot(a, b) => {
            lemma_rename_term(ctx, d, x, y, n, *a);
            lemma_rename_term(ctx, d, x, y, n, *b);
        },
        Term::Assert(a) => {
            lemma_rename_term(ctx, d, x, y, n, *a);
        },
        Term::BinOp(o, l, r) => {
            lemma_rename_term(ctx, d, x, y, n, *l);
            lemma_rename_term(ctx, d, x, y, n, *r);
        },
        Term::BoolIf(c, a, b) => {
            lemma_rename_term(ctx, d, x, y, n, *c);
            lemma_rename_term(ctx, d, x, y, n, *a);
            lemma_rename_term(ctx, d, x, y, n, *b);
        },
        _ => {},
    }
}

proof fn lemma_rename_node_b(ctx: Binders, d: nat, x: Name, y: Name, n: nat, t: Term)
    requires
        renaming(ctx, d, x, y),
        n == count(ctx, x, d + 1, ctx.len()),
        renamable(y, t),
        t is EmptyListLit || t is SomeLit || t is Merge || t is Field || t is Projection,
    ensures
        renamed(ctx, x, y, n, t),
    decreases t, 0nat,
{
    match t {
        Term::EmptyListLit(a) => {
            lemma_rename_term(ctx, d, x, y, n, *a);
        },
        Term::SomeLit(a) => {
            lemma_rename_term(ctx, d, x, y, n, *a);
        },
        Term::Merge(r, u, ot) => {
            lemma_rename_term(ctx, d, x, y, n, *r);
            lemma_rename_term(ctx, d, x, y, n, *u);
            match ot {
                Some(t0) => {
                    lemma_rename_term(ctx, d, x, y, n, *t0);
                },
                None => {},
            }
        },
        Term::Field(r, l) => {
            lemma_rename_term(ctx, d, x, y, n, *r);
        },
        Term::Projection(r, ls) => {
            lemma_rename_term(ctx, d, x, y, n, *r);
            lemma_names_within_self(ls, ls.len());
        },
        _ => {},
    }
}

proof fn lemma_rename_list(ctx: Binders, d: nat, x: Name, y: Name, n: nat, t: Term)
    requires
        renaming(ctx, d, x, y),
        n == count(ctx, x, d + 1, ctx.len()),
        renamable(y, t),
        t is TextLit || t is NEListLit || t is RecordType || t is RecordLit || t is UnionType,
    ensures
        renamed(ctx, x, y, n, t),
    decreases t, 0nat,
{
    let val = Term::Var(y, 0);
    match t {
        Term::TextLit(chunks, tail) => {
            lemma_rename_fields(ctx, d, x, y, n, chunks, chunks.len());
            let out = spec_subst_fields(x, n, val, chunks, chunks.len())->Some_0;
            lemma_chunks_equal(ctx, chunks, out, chunks.len());
        },
        Term::NEListLit(a, rest) => {
            lemma_rename_term(ctx, d, x, y, n, *a);
            lemma_rename_terms(ctx, d, x, y, n, rest, rest.len());
            let out = spec_subst_terms(x, n, val, rest, rest.len())->Some_0;
            lemma_terms_equal(ctx, rest, out, rest.len());
        },
        Term::RecordType(fs) => {
            lemma_rename_fields(ctx, d, x, y, n, fs, fs.len());
            let out = spec_subst_fields(x, n, val, fs, fs.len())->Some_0;
            lemma_fields_equal(ctx, fs, out, fs.len());
        },
        Term::RecordLit(fs) => {
            lemma_rename_fields(ctx, d, x, y, n, fs, fs.len());
            let out = spec_subst_fields(x, n, val, fs, fs.len())->Some_0;
            lemma_fields_equal(ctx, fs, out, fs.len());
        },
        Term::UnionType(fs) => {
            lemma_rename_alts(ctx, d, x, y, n, fs, fs.len());
            let out = spec_subst_alts(x, n, val, fs, fs.len())->Some_0;
            lemma_alts_equal(ctx, fs, out, fs.len());
        },
        _ => {},
    }
}

/// Under the binders of a renaming of `x` to `y`, a term equals what it
/// becomes when `y@0` is put for `x`.
proof fn lemma_rename_term(ctx: Binders, d: nat, x: Name, y: Name, n: nat, t: Term)
    requires
        renaming(ctx, d, x, y),
        n == count(ctx, x, d + 1, ctx.len()),
        renamable(y, t),
    ensures
        renamed(ctx, x, y, n, t),
    decreases t, 1nat,
{
    match t {
        Term::Var(_, _) => lemma_rename_var(ctx, d, x, y, n, t),
        Term::Lam(_, _, _) | Term::Pi(_, _, _) | Term::Let(_, _, _, _) => lemma_rename_binder(
            ctx,
            d,
            x,
            y,
            n,
            t,
        ),
        Term::TextLit(_, _) | Term::NEListLit(_, _) | Term::RecordType(_) | Term::RecordLit(_)
        | Term::UnionType(_) => lemma_rename_list(ctx, d, x, y, n, t),
        Term::App(_, _) | Term::Annot(_, _) | Term::Assert(_) | Term::BinOp(_, _, _)
        | Term::BoolIf(_, _, _) => lemma_rename_node_a(ctx, d, x, y, n, t),
        Term::EmptyListLit(_) | Term::SomeLit(_) | Term::Merge(_, _, _) | Term::Field(_, _)
        | Term::Projection(_, _) => lemma_rename_node_b(ctx, d, x, y, n, t),
        _ => {},
    }
}

/// Every pair of `ctx` has one name twice.
pub open spec fn diagonal(ctx: Binders) -> bool {
    forall|j: int| 0 <= j < ctx.len() ==> (#[trigger] ctx[j]).0 == ctx[j].1
}

proof fn lemma_diagonal_push(ctx: Binders, z: Name)
    requires
        diagonal(ctx),
    ensures
        diagonal(ctx.push((z, z))),
{
    let c2 = ctx.push((z, z));
    assert forall|j: int| 0 <= j < c2.len() implies (#[trigger] c2[j]).0 == c2[j].1 by {
        if j < ctx.len() {
            assert(c2[j] == ctx[j]);
        }
    }
}

proof fn lemma_same_fields(ctx: Binders, y: Name, fs: Fields, k: nat)
    requires
        diagonal(ctx),
        renamable_fields(y, fs, k),
        k <= fs.len(),
    ensures
        forall|i: int| 0 <= i < k ==> spec_alpha_eq(ctx, (#[trigger] fs[i]).1, fs[i].1),
    decreases fs, k,
{
    if k > 0 {
        lemma_same_fields(ctx, y, fs, (k - 1) as nat);
        lemma_same_term(ctx, y, fs[k - 1].1);
    }
}

proof fn lemma_same_terms(ctx: Binders, y: Name, ts: Seq<Term>, k: nat)
    requires
        diagonal(ctx),
        renamable_terms(y, ts, k),
        k <= ts.len(),
    ensures
        forall|i: int| 0 <= i < k ==> spec_alpha_eq(ctx, ts[i], #[trigger] ts[i]),
    decreases ts, k,
{
    if k > 0 {
        lemma_same_terms(ctx, y, ts, (k - 1) as nat);
        lemma_same_term(ctx, y, ts[k - 1]);
    }
}

proof fn lemma_same_alts(ctx: Binders, y: Name, fs: Alternatives, k: nat)
    requires
        diagonal(ctx),
        renamable_alts(y, fs, k),
        k <= fs.len(),
    ensures
        forall|i: int|
            0 <= i < k ==> (match (#[trigger] fs[i]).1 {
                Some(a) => spec_alpha_eq(ctx, a, a),
                None => true,
            }),
    decreases fs, k,
{
    if k > 0 {
        lemma_same_alts(ctx, y, fs, (k - 1) as nat);
        match fs[k - 1].1 {
            Some(t0) => {
                lemma_same_term(ctx, y, t0);
            },
            None => {},
        }
    }
}

proof fn lemma_same_binder(ctx: Binders, y: Name, t: Term)
    requires
        diagonal(ctx),
        renamable(y, t),
        t is Lam || t is Pi || t is Let,
    ensures
        spec_alpha_eq(ctx, t, t),
    decreases t, 0nat,
{
    match t {
        Term::Lam(z, a, b) => {
            lemma_diagonal_push(ctx, z);
            lemma_same_term(ctx, y, *a);
            lemma_same_term(ctx.push((z, z)), y, *b);
        },
        Term::Pi(z, a, b) => {
            lemma_diagonal_push(ctx, z);
            lemma_same_term(ctx, y, *a);
            lemma_same_term(ctx.push((z, z)), y, *b);
        },
        Term::Let(z, ot, v, b) => {
            lemma_diagonal_push(ctx, z);
            lemma_same_term(ctx, y, *v);
            lemma_same_term(ctx.push((z, z)), y, *b);
            match ot {
                Some(t0) => {
                    lemma_same_term(ctx, y, *t0);
                },
                None => {},
            }
        },
        _ => {},
    }
}

proof fn lemma_same_node_a(ctx: Binders, y: Name, t: Term)
    requires
        diagonal(ctx),
        renamable(y, t),
        t is App || t is Annot || t is Assert || t is BinOp || t is BoolIf,
    ensures
        spec_alpha_eq(ctx, t, t),
    decreases t, 0nat,
{
    match t {
        Term::App(f, a) => {
            lemma_same_term(ctx, y, *f);
            lemma_same_term(ctx, y, *a);
        },
        Term::Annot(a, b) => {
            lemma_same_term(ctx, y, *a);
            lemma_same_term(ctx, y, *b);
        },
        Term::Assert(a) => {
            lemma_same_term(ctx, y, *a);
        },
        Term::BinOp(o, l, r) => {
            lemma_same_term(ctx, y, *l);
            lemma_same_term(ctx, y, *r);
        },
        Term::BoolIf(c, a, b) => {
            lemma_same_term(ctx, y, *c);
            lemma_same_term(ctx, y, *a);
            lemma_same_term(ctx, y, *b);
        },
        _ => {},
    }
}

proof fn lemma_same_node_b(ctx: Binders, y: Name, t: Term)
    requires
        diagonal(ctx),
        renamable(y, t),
        t is EmptyListLit || t is SomeLit || t is Merge || t is Field || t is Projection,
    ensures
        spec_alpha_eq(ctx, t, t),
    decreases t, 0nat,
{
    match t {
        Term::EmptyListLit(a) => {
            lemma_same_term(ctx, y, *a);
        },
        Term::SomeLit(a) => {
            lemma_same_term(ctx, y, *a);
        },
        Term::Merge(r, u, ot) => {
            lemma_same_term(ctx, y, *r);
            lemma_same_term(ctx, y, *u);
            match ot {
                Some(t0) => {
                    lemma_same_term(ctx, y, *t0);
                },
                None => {},
            }
        },
        Term::Field(r, l) => {
            lemma_same_term(ctx, y, *r);
        },
        Term::Projection(r, ls) => {
            lemma_same_term(ctx, y, *r);
            lemma_names_within_self(ls, ls.len());
        },
        _ => {},
    }
}

proof fn lemma_same_list(ctx: Binders, y: Name, t: Term)
    requires
        diagonal(ctx),
        renamable(y, t),
        t is TextLit || t is NEListLit || t is RecordType || t is RecordLit || t is UnionType,
    ensures
        spec_alpha_eq(ctx, t, t),
    decreases t, 0nat,
{
    match t {
        Term::TextLit(chunks, tail) => {
            lemma_same_fields(ctx, y, chunks, chunks.len());
            lemma_chunks_equal(ctx, chunks, chunks, chunks.len());
        },
        Term::NEListLit(a, rest) => {
            lemma_same_term(ctx, y, *a);
            lemma_same_terms(ctx, y, rest, rest.len());
            lemma_terms_equal(ctx, rest, rest, rest.len());
        },
        Term::RecordType(fs) => {
            lemma_same_fields(ctx, y, fs, fs.len());
            lemma_fields_equal(ctx, fs, fs, fs.len());
        },
        Term::RecordLit(fs) => {
            lemma_same_fields(ctx, y, fs, fs.len());
            lemma_fields_equal(ctx, fs, fs, fs.len());
        },
        Term::UnionType(fs) => {
            lemma_same_alts(ctx, y, fs, fs.len());
            lemma_alts_equal(ctx, fs, fs, fs.len());
        },
        _ => {},
    }
}

/// Equality is reflexive: under binders that rename nothing, an
/// expression in which no record or union has a label twice equals
/// itself.
pub proof fn lemma_same_term(ctx: Binders, y: Name, t: Term)
    requires
        diagonal(ctx),
        renamable(y, t),
    ensures
        spec_alpha_eq(ctx, t, t),
    decreases t, 1nat,
{
    match t {
        Term::Var(z, m) => lemma_match_same(ctx, z, m as nat, ctx.len()),
        Term::Lam(_, _, _) | Term::Pi(_, _, _) | Term::Let(_, _, _, _) => lemma_same_binder(
            ctx,
            y,
            t,
        ),
        Term::TextLit(_, _) | Term::NEListLit(_, _) | Term::RecordType(_) | Term::RecordLit(_)
        | Term::UnionType(_) => lemma_same_list(ctx, y, t),
        Term::App(_, _) | Term::Annot(_, _) | Term::Assert(_) | Term::BinOp(_, _, _)
        | Term::BoolIf(_, _, _) => lemma_same_node_a(ctx, y, t),
        Term::EmptyListLit(_) | Term::SomeLit(_) | Term::Merge(_, _, _) | Term::Field(_, _)
        | Term::Projection(_, _) => lemma_same_node_b(ctx, y, t),
        _ => {},
    }
}

/// The name of a bound variable does not count: a function, a function
/// type or a `let` equals itself with its variable renamed to `y`, where
/// `y` is fresh for it and no record or union in it has a label twice.
pub proof fn lemma_rename(t: Term, y: Name)
    requires
        t is Lam || t is Pi || t is Let,
        renamable(y, t),
    ensures
        spec_rename(t, y) matches Some(t2) && spec_alpha_eq(Seq::empty(), t, t2),
{
    let empty: Binders = Seq::empty();
    match t {
        Term::Lam(x, a, b) => {
            let ctx = empty.push((x, y));
            assert(renaming(ctx, 0, x, y));
            assert(count(ctx, x, 1, 1) == 0);
            lemma_rename_term(ctx, 0, x, y, 0, *b);
            lemma_same_term(empty, y, *a);
        },
        Term::Pi(x, a, b) => {
            let ctx = empty.push((x, y));
            assert(renaming(ctx, 0, x, y));
            assert(count(ctx, x, 1, 1) == 0);
            lemma_rename_term(ctx, 0, x, y, 0, *b);
            lemma_same_term(empty, y, *a);
        },
        Term::Let(x, ot, v, b) => {
            let ctx = empty.push((x, y));
            assert(renaming(ctx, 0, x, y));
            assert(count(ctx, x, 1, 1) == 0);
            lemma_rename_term(ctx, 0, x, y, 0, *b);
            lemma_same_term(empty, y, *v);
            match ot {
                Some(t0) => lemma_same_term(empty, y, *t0),
                None => {},
            }
        },
        _ => {},
    }
}

/// Renaming a bound variable leaves an expression equal to itself, where
/// both are in normal form already: the comparison of the two normal
/// forms, within the budget `f`, says that they are equal.
pub proof fn lemma_rename_equal(f: nat, t: Term, y: Name)
    requires
        t is Lam || t is Pi || t is Let,
        renamable(y, t),
        crate::normalize::spec_nf(f, t) == Some(t),
        spec_rename(t, y) matches Some(t2) ==> crate::normalize::spec_nf(f, t2) == Some(t2),
    ensures
        spec_rename(t, y) matches Some(t2) && crate::equality::spec_equal(f, t, t2) == Some(true),
{
    lemma_rename(t, y);
}

} // verus!
