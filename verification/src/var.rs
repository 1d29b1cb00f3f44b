//! Shifting and substitution of variables.
//!
//! A variable `x@m` is free at cutoff `n` when `m >= n`: it refers to a
//! binder of `x` outside the expression at hand. Going under a binder of
//! the same name raises the cutoff by one. A cutoff is a natural number
//! and may pass the range of an index; then no variable is free at it.

use vstd::prelude::*;
use crate::syntax::{
    alternatives_of, clone_expr, clone_names, clone_var, fields_of, opt_term_of, terms_of,
    Alternatives, Expr, Fields, Name, Term, V,
};

verus! {

/// The index `m` of a variable of the shifted name after a shift by `d` at
/// cutoff `n`: unchanged below the cutoff, `m + d` at or above it, and
/// `None` where `m + d` would fall below the cutoff or leave the range of
/// an index.
pub open spec fn shift_index(d: int, n: nat, m: u64) -> Option<u64> {
    if m < n {
        Some(m)
    } else if n <= m + d <= u64::MAX {
        Some((m + d) as u64)
    } else {
        None
    }
}

/// The cutoff for `x` under a binder of `y`.
pub open spec fn under(x: Name, n: nat, y: Name) -> nat {
    if x == y {
        n + 1
    } else {
        n
    }
}

/// `spec_shift` on the first `k` of a list of labelled terms.
pub open spec fn spec_shift_fields(d: int, x: Name, n: nat, fs: Fields, k: nat) -> Option<Fields>
    decreases fs, k,
{
    if k == 0 || k > fs.len() {
        Some(Seq::empty())
    } else {
        match spec_shift_fields(d, x, n, fs, (k - 1) as nat) {
            Some(done) => match spec_shift(d, x, n, fs[k - 1].1) {
                Some(t) => Some(done.push((fs[k - 1].0, t))),
                None => None,
            },
            None => None,
        }
    }
}

/// `spec_shift` on the first `k` of a list of terms.
pub open spec fn spec_shift_terms(d: int, x: Name, n: nat, ts: Seq<Term>, k: nat) -> Option<
    Seq<Term>,
>
    decreases ts, k,
{
    if k == 0 || k > ts.len() {
        Some(Seq::empty())
    } else {
        match spec_shift_terms(d, x, n, ts, (k - 1) as nat) {
            Some(done) => match spec_shift(d, x, n, ts[k - 1]) {
                Some(t) => Some(done.push(t)),
                None => None,
            },
            None => None,
        }
    }
}

/// `spec_shift` on the first `k` alternatives of a union type.
pub open spec fn spec_shift_alts(d: int, x: Name, n: nat, fs: Alternatives, k: nat) -> Option<
    Alternatives,
>
    decreases fs, k,
{
    if k == 0 || k > fs.len() {
        Some(Seq::empty())
    } else {
        match spec_shift_alts(d, x, n, fs, (k - 1) as nat) {
            Some(done) => match fs[k - 1].1 {
                Some(t0) => match spec_shift(d, x, n, t0) {
                    Some(t) => Some(done.push((fs[k - 1].0, Some(t)))),
                    None => None,
                },
                None => Some(done.push((fs[k - 1].0, None))),
            },
            None => None,
        }
    }
}

/// Adds `d` to the index of every variable `x@m` of `t` that is free at
/// cutoff `n`, and leaves every other variable as it is.
///
/// The result is `None` where some such index would fall below its cutoff
/// (the variable that a negative shift removes occurs in `t`) or leave the
/// range of an index.
pub open spec fn spec_shift(d: int, x: Name, n: nat, t: Term) -> Option<Term>
    decreases t, 0nat,
{
    match t {
        Term::Var(y, m) => if y == x {
            match shift_index(d, n, m) {
                Some(k) => Some(Term::Var(y, k)),
                None => None,
            }
        } else {
            Some(t)
        },
        Term::Lam(y, a, b) => match (
            spec_shift(d, x, n, *a),
            spec_shift(d, x, under(x, n, y), *b),
        ) {
            (Some(a2), Some(b2)) => Some(Term::Lam(y, Box::new(a2), Box::new(b2))),
            _ => None,
        },
        Term::Pi(y, a, b) => match (
            spec_shift(d, x, n, *a),
            spec_shift(d, x, under(x, n, y), *b),
        ) {
            (Some(a2), Some(b2)) => Some(Term::Pi(y, Box::new(a2), Box::new(b2))),
            _ => None,
        },
        Term::Let(y, ot, v, b) => match (
            spec_shift(d, x, n, *v),
            spec_shift(d, x, under(x, n, y), *b),
        ) {
            (Some(v2), Some(b2)) => match ot {
                Some(t0) => match spec_shift(d, x, n, *t0) {
                    Some(t2) => Some(
                        Term::Let(y, Some(Box::new(t2)), Box::new(v2), Box::new(b2)),
                    ),
                    None => None,
                },
                None => Some(Term::Let(y, None, Box::new(v2), Box::new(b2))),
            },
            _ => None,
        },
        Term::App(f, a) => match (spec_shift(d, x, n, *f), spec_shift(d, x, n, *a)) {
            (Some(f2), Some(a2)) => Some(Term::App(Box::new(f2), Box::new(a2))),
            _ => None,
        },
        Term::Annot(a, b) => match (spec_shift(d, x, n, *a), spec_shift(d, x, n, *b)) {
            (Some(a2), Some(b2)) => Some(Term::Annot(Box::new(a2), Box::new(b2))),
            _ => None,
        },
        Term::Assert(a) => match spec_shift(d, x, n, *a) {
            Some(a2) => Some(Term::Assert(Box::new(a2))),
            None => None,
        },
        Term::TextLit(chunks, tail) => match spec_shift_fields(d, x, n, chunks, chunks.len()) {
            Some(c2) => Some(Term::TextLit(c2, tail)),
            None => None,
        },
        Term::BinOp(o, l, r) => match (spec_shift(d, x, n, *l), spec_shift(d, x, n, *r)) {
            (Some(l2), Some(r2)) => Some(Term::BinOp(o, Box::new(l2), Box::new(r2))),
            _ => None,
        },
        Term::BoolIf(c, a, b) => match (
            spec_shift(d, x, n, *c),
            spec_shift(d, x, n, *a),
            spec_shift(d, x, n, *b),
        ) {
            (Some(c2), Some(a2), Some(b2)) => Some(
                Term::BoolIf(Box::new(c2), Box::new(a2), Box::new(b2)),
            ),
            _ => None,
        },
        Term::EmptyListLit(a) => match spec_shift(d, x, n, *a) {
            Some(a2) => Some(Term::EmptyListLit(Box::new(a2))),
            None => None,
        },
        Term::NEListLit(a, rest) => match (
            spec_shift(d, x, n, *a),
            spec_shift_terms(d, x, n, rest, rest.len()),
        ) {
            (Some(a2), Some(r2)) => Some(Term::NEListLit(Box::new(a2), r2)),
            _ => None,
        },
        Term::SomeLit(a) => match spec_shift(d, x, n, *a) {
            Some(a2) => Some(Term::SomeLit(Box::new(a2))),
            None => None,
        },
        Term::RecordType(fs) => match spec_shift_fields(d, x, n, fs, fs.len()) {
            Some(f2) => Some(Term::RecordType(f2)),
            None => None,
        },
        Term::RecordLit(fs) => match spec_shift_fields(d, x, n, fs, fs.len()) {
            Some(f2) => Some(Term::RecordLit(f2)),
            None => None,
        },
        Term::UnionType(fs) => match spec_shift_alts(d, x, n, fs, fs.len()) {
            Some(f2) => Some(Term::UnionType(f2)),
            None => None,
        },
        Term::Merge(r, u, ot) => match (spec_shift(d, x, n, *r), spec_shift(d, x, n, *u)) {
            (Some(r2), Some(u2)) => match ot {
                Some(t0) => match spec_shift(d, x, n, *t0) {
                    Some(t2) => Some(Term::Merge(Box::new(r2), Box::new(u2), Some(Box::new(t2)))),
                    None => None,
                },
                None => Some(Term::Merge(Box::new(r2), Box::new(u2), None)),
            },
            _ => None,
        },
        Term::Field(r, l) => match spec_shift(d, x, n, *r) {
            Some(r2) => Some(Term::Field(Box::new(r2), l)),
            None => None,
        },
        Term::Projection(r, ls) => match spec_shift(d, x, n, *r) {
            Some(r2) => Some(Term::Projection(Box::new(r2), ls)),
            None => None,
        },
        _ => Some(t),
    }
}

/// `spec_subst_shift` on the first `k` of a list of labelled terms.
pub open spec fn spec_subst_fields(x: Name, n: nat, val: Term, fs: Fields, k: nat) -> Option<
    Fields,
>
    decreases fs, k,
{
    if k == 0 || k > fs.len() {
        Some(Seq::empty())
    } else {
        match spec_subst_fields(x, n, val, fs, (k - 1) as nat) {
            Some(done) => match spec_subst_shift(x, n, val, fs[k - 1].1) {
                Some(t) => Some(done.push((fs[k - 1].0, t))),
                None => None,
            },
            None => None,
        }
    }
}

/// `spec_subst_shift` on the first `k` of a list of terms.
pub open spec fn spec_subst_terms(x: Name, n: nat, val: Term, ts: Seq<Term>, k: nat) -> Option<
    Seq<Term>,
>
    decreases ts, k,
{
    if k == 0 || k > ts.len() {
        Some(Seq::empty())
    } else {
        match spec_subst_terms(x, n, val, ts, (k - 1) as nat) {
            Some(done) => match spec_subst_shift(x, n, val, ts[k - 1]) {
                Some(t) => Some(done.push(t)),
                None => None,
            },
            None => None,
        }
    }
}

/// `spec_subst_shift` on the first `k` alternatives of a union type.
pub open spec fn spec_subst_alts(x: Name, n: nat, val: Term, fs: Alternatives, k: nat) -> Option<
    Alternatives,
>
    decreases fs, k,
{
    if k == 0 || k > fs.len() {
        Some(Seq::empty())
    } else {
        match spec_subst_alts(x, n, val, fs, (k - 1) as nat) {
            Some(done) => match fs[k - 1].1 {
                Some(t0) => match spec_subst_shift(x, n, val, t0) {
                    Some(t) => Some(done.push((fs[k - 1].0, Some(t)))),
                    None => None,
                },
                None => Some(done.push((fs[k - 1].0, None))),
            },
            None => None,
        }
    }
}

/// Substitution fused with the shift that follows it when a binder of `x`
/// is removed: in `t`, the variable `x@n` becomes `val`, and every `x@m`
/// with `m > n` becomes `x@(m - 1)`.
///
/// Under a binder of `y` the value is shifted up by one over `y`, so that
/// none of its variables is captured, and the cutoff for `x` is raised if
/// `y` is `x`. The result is `None` where such a shift of the value is.
pub open spec fn spec_subst_shift(x: Name, n: nat, val: Term, t: Term) -> Option<Term>
    decreases t, 0nat,
{
    match t {
        Term::Var(y, m) => if y == x && m == n {
            Some(val)
        } else if y == x && m > n {
            Some(Term::Var(y, (m - 1) as u64))
        } else {
            Some(t)
        },
        Term::Lam(y, a, b) => match spec_shift(1, y, 0, val) {
            Some(val2) => match (
                spec_subst_shift(x, n, val, *a),
                spec_subst_shift(x, under(x, n, y), val2, *b),
            ) {
                (Some(a2), Some(b2)) => Some(Term::Lam(y, Box::new(a2), Box::new(b2))),
                _ => None,
            },
            None => None,
        },
        Term::Pi(y, a, b) => match spec_shift(1, y, 0, val) {
            Some(val2) => match (
                spec_subst_shift(x, n, val, *a),
                spec_subst_shift(x, under(x, n, y), val2, *b),
            ) {
                (Some(a2), Some(b2)) => Some(Term::Pi(y, Box::new(a2), Box::new(b2))),
                _ => None,
            },
            None => None,
        },
        Term::Let(y, ot, v, b) => match spec_shift(1, y, 0, val) {
            Some(val2) => match (
                spec_subst_shift(x, n, val, *v),
                spec_subst_shift(x, under(x, n, y), val2, *b),
            ) {
                (Some(v2), Some(b2)) => match ot {
                    Some(t0) => match spec_subst_shift(x, n, val, *t0) {
                        Some(t2) => Some(
                            Term::Let(y, Some(Box::new(t2)), Box::new(v2), Box::new(b2)),
                        ),
                        None => None,
                    },
                    None => Some(Term::Let(y, None, Box::new(v2), Box::new(b2))),
                },
                _ => None,
            },
            None => None,
        },
        Term::App(f, a) => match (
            spec_subst_shift(x, n, val, *f),
            spec_subst_shift(x, n, val, *a),
        ) {
            (Some(f2), Some(a2)) => Some(Term::App(Box::new(f2), Box::new(a2))),
            _ => None,
        },
        Term::Annot(a, b) => match (
            spec_subst_shift(x, n, val, *a),
            spec_subst_shift(x, n, val, *b),
        ) {
            (Some(a2), Some(b2)) => Some(Term::Annot(Box::new(a2), Box::new(b2))),
            _ => None,
        },
        Term::Assert(a) => match spec_subst_shift(x, n, val, *a) {
            Some(a2) => Some(Term::Assert(Box::new(a2))),
            None => None,
        },
        Term::TextLit(chunks, tail) => match spec_subst_fields(x, n, val, chunks, chunks.len()) {
            Some(c2) => Some(Term::TextLit(c2, tail)),
            None => None,
        },
        Term::BinOp(o, l, r) => match (
            spec_subst_shift(x, n, val, *l),
            spec_subst_shift(x, n, val, *r),
        ) {
            (Some(l2), Some(r2)) => Some(Term::BinOp(o, Box::new(l2), Box::new(r2))),
            _ => None,
        },
        Term::BoolIf(c, a, b) => match (
            spec_subst_shift(x, n, val, *c),
            spec_subst_shift(x, n, val, *a),
            spec_subst_shift(x, n, val, *b),
        ) {
            (Some(c2), Some(a2), Some(b2)) => Some(
                Term::BoolIf(Box::new(c2), Box::new(a2), Box::new(b2)),
            ),
            _ => None,
        },
        Term::EmptyListLit(a) => match spec_subst_shift(x, n, val, *a) {
            Some(a2) => Some(Term::EmptyListLit(Box::new(a2))),
            None => None,
        },
        Term::NEListLit(a, rest) => match (
            spec_subst_shift(x, n, val, *a),
            spec_subst_terms(x, n, val, rest, rest.len()),
        ) {
            (Some(a2), Some(r2)) => Some(Term::NEListLit(Box::new(a2), r2)),
            _ => None,
        },
        Term::SomeLit(a) => match spec_subst_shift(x, n, val, *a) {
            Some(a2) => Some(Term::SomeLit(Box::new(a2))),
            None => None,
        },
        Term::RecordType(fs) => match spec_subst_fields(x, n, val, fs, fs.len()) {
            Some(f2) => Some(Term::RecordType(f2)),
            None => None,
        },
        Term::RecordLit(fs) => match spec_subst_fields(x, n, val, fs, fs.len()) {
            Some(f2) => Some(Term::RecordLit(f2)),
            None => None,
        },
        Term::UnionType(fs) => match spec_subst_alts(x, n, val, fs, fs.len()) {
            Some(f2) => Some(Term::UnionType(f2)),
            None => None,
        },
        Term::Merge(r, u, ot) => match (
            spec_subst_shift(x, n, val, *r),
            spec_subst_shift(x, n, val, *u),
        ) {
            (Some(r2), Some(u2)) => match ot {
                Some(t0) => match spec_subst_shift(x, n, val, *t0) {
                    Some(t2) => Some(Term::Merge(Box::new(r2), Box::new(u2), Some(Box::new(t2)))),
                    None => None,
                },
                None => Some(Term::Merge(Box::new(r2), Box::new(u2), None)),
            },
            _ => None,
        },
        Term::Field(r, l) => match spec_subst_shift(x, n, val, *r) {
            Some(r2) => Some(Term::Field(Box::new(r2), l)),
            None => None,
        },
        Term::Projection(r, ls) => match spec_subst_shift(x, n, val, *r) {
            Some(r2) => Some(Term::Projection(Box::new(r2), ls)),
            None => None,
        },
        _ => Some(t),
    }
}

/// Whether two labels are the same.
pub fn same_name(a: &String, b: &String) -> (r: bool)
    ensures
        r == (a@ == b@),
{
    *a == *b
}

/// A cutoff as the machine holds it stands for the natural number `c`:
/// `None` is for every cutoff past the range of an index.
pub open spec fn cut_is(n: Option<u64>, c: nat) -> bool {
    match n {
        Some(m) => m == c,
        None => c > u64::MAX,
    }
}

fn cut_under(x: &String, n: Option<u64>, y: &String, Ghost(c): Ghost<nat>) -> (r: Option<u64>)
    requires
        cut_is(n, c),
    ensures
        cut_is(r, under(x@, c, y@)),
{
    if same_name(x, y) {
        match n {
            Some(m) => if m == u64::MAX {
                None
            } else {
                Some(m + 1)
            },
            None => None,
        }
    } else {
        n
    }
}

fn shift_var(d: i64, x: &String, n: Option<u64>, Ghost(c): Ghost<nat>, v: &V) -> (r: Option<Expr>)
    requires
        cut_is(n, c),
    ensures
        match r {
            Some(e2) => spec_shift(d as int, x@, c, Term::Var(v.0@, v.1)) == Some(e2@),
            None => spec_shift(d as int, x@, c, Term::Var(v.0@, v.1)) is None,
        },
{
    if !same_name(&v.0, x) {
        return Some(Expr::Var(clone_var(v)));
    }
    match n {
        Some(m) => {
            if v.1 < m {
                Some(Expr::Var(clone_var(v)))
            } else {
                let k: i128 = v.1 as i128 + d as i128;
                if m as i128 <= k && k <= u64::MAX as i128 {
                    Some(Expr::Var(V(v.0.clone(), k as u64)))
                } else {
                    None
                }
            }
        },
        None => Some(Expr::Var(clone_var(v))),
    }
}

fn shift_opt(d: i64, x: &String, n: Option<u64>, Ghost(c): Ghost<nat>, o: &Option<Box<Expr>>) -> (r:
    Option<Option<Box<Expr>>>)
    requires
        cut_is(n, c),
    ensures
        match *o {
            Some(e) => match r {
                Some(Some(e2)) => spec_shift(d as int, x@, c, e@) == Some(e2@),
                Some(None) => false,
                None => spec_shift(d as int, x@, c, e@) is None,
            },
            None => r == Some(None::<Box<Expr>>),
        },
    decreases o,
{
    match o {
        Some(e) => match shift_from(d, x, n, Ghost(c), e) {
            Some(e2) => Some(Some(Box::new(e2))),
            None => None,
        },
        None => Some(None),
    }
}

fn shift_fields(d: i64, x: &String, n: Option<u64>, Ghost(c): Ghost<nat>, fs: &Vec<(String, Expr)>) -> (r:
    Option<Vec<(String, Expr)>>)
    requires
        cut_is(n, c),
    ensures
        match r {
            Some(out) => spec_shift_fields(d as int, x@, c, fields_of(*fs), fs.len() as nat)
                == Some(fields_of(out)),
            None => spec_shift_fields(d as int, x@, c, fields_of(*fs), fs.len() as nat) is None,
        },
    decreases fs,
{
    let mut out: Vec<(String, Expr)> = Vec::new();
    let mut ok = true;
    let mut i: usize = 0;
    while i < fs.len()
        invariant
            i <= fs.len(),
            cut_is(n, c),
            ok ==> spec_shift_fields(d as int, x@, c, fields_of(*fs), i as nat) == Some(
                fields_of(out),
            ),
            !ok ==> spec_shift_fields(d as int, x@, c, fields_of(*fs), i as nat) is None,
        decreases fs.len() - i,
    {
        if ok {
            proof {
                assert(decreases_to!(*fs => fs[i as int]));
                assert(decreases_to!(fs[i as int] => fs[i as int].1));
            }
            match shift_from(d, x, n, Ghost(c), &fs[i].1) {
                Some(t) => {
                    let ghost prev = fields_of(out);
                    out.push((fs[i].0.clone(), t));
                    assert(fields_of(out) =~= prev.push((fs[i as int].0@, t@)));
                },
                None => {
                    ok = false;
                },
            }
        }
        i += 1;
    }
    if ok {
        Some(out)
    } else {
        None
    }
}

fn shift_terms(d: i64, x: &String, n: Option<u64>, Ghost(c): Ghost<nat>, es: &Vec<Expr>) -> (r:
    Option<Vec<Expr>>)
    requires
        cut_is(n, c),
    ensures
        match r {
            Some(out) => spec_shift_terms(d as int, x@, c, terms_of(*es), es.len() as nat) == Some(
                terms_of(out),
            ),
            None => spec_shift_terms(d as int, x@, c, terms_of(*es), es.len() as nat) is None,
        },
    decreases es,
{
    let mut out: Vec<Expr> = Vec::new();
    let mut ok = true;
    let mut i: usize = 0;
    while i < es.len()
        invariant
            i <= es.len(),
            cut_is(n, c),
            ok ==> spec_shift_terms(d as int, x@, c, terms_of(*es), i as nat) == Some(
                terms_of(out),
            ),
            !ok ==> spec_shift_terms(d as int, x@, c, terms_of(*es), i as nat) is None,
        decreases es.len() - i,
    {
        if ok {
            match shift_from(d, x, n, Ghost(c), &es[i]) {
                Some(t) => {
                    let ghost prev = terms_of(out);
                    out.push(t);
                    assert(terms_of(out) =~= prev.push(t@));
                },
                None => {
                    ok = false;
                },
            }
        }
        i += 1;
    }
    if ok {
        Some(out)
    } else {
        None
    }
}

fn shift_alts(
    d: i64,
    x: &String,
    n: Option<u64>,
    Ghost(c): Ghost<nat>,
    fs: &Vec<(String, Option<Expr>)>,
) -> (r: Option<Vec<(String, Option<Expr>)>>)
    requires
        cut_is(n, c),
    ensures
        match r {
            Some(out) => spec_shift_alts(d as int, x@, c, alternatives_of(*fs), fs.len() as nat)
                == Some(alternatives_of(out)),
            None => spec_shift_alts(d as int, x@, c, alternatives_of(*fs), fs.len() as nat) is None,
        },
    decreases fs,
{
    let mut out: Vec<(String, Option<Expr>)> = Vec::new();
    let mut ok = true;
    let mut i: usize = 0;
    while i < fs.len()
        invariant
            i <= fs.len(),
            cut_is(n, c),
            ok ==> spec_shift_alts(d as int, x@, c, alternatives_of(*fs), i as nat) == Some(
                alternatives_of(out),
            ),
            !ok ==> spec_shift_alts(d as int, x@, c, alternatives_of(*fs), i as nat) is None,
        decreases fs.len() - i,
    {
        if ok {
            let ghost prev = alternatives_of(out);
            match &fs[i].1 {
                Some(e) => {
                    proof {
                        assert(decreases_to!(*fs => fs[i as int]));
                        assert(decreases_to!(fs[i as int] => fs[i as int].1));
                        assert(decreases_to!(fs[i as int].1 => fs[i as int].1->Some_0));
                    }
                    match shift_from(d, x, n, Ghost(c), e) {
                        Some(t) => {
                            out.push((fs[i].0.clone(), Some(t)));
                            assert(alternatives_of(out) =~= prev.push((fs[i as int].0@, Some(t@))));
                        },
                        None => {
                            ok = false;
                        },
                    }
                },
                None => {
                    out.push((fs[i].0.clone(), None));
                    assert(alternatives_of(out) =~= prev.push((fs[i as int].0@, None)));
                },
            }
        }
        i += 1;
    }
    if ok {
        Some(out)
    } else {
        None
    }
}

#[verifier::rlimit(50)]
pub(crate) fn shift_from(d: i64, x: &String, n: Option<u64>, Ghost(c): Ghost<nat>, e: &Expr) -> (r: Option<
    Expr,
>)
    requires
        cut_is(n, c),
    ensures
        match r {
            Some(e2) => spec_shift(d as int, x@, c, e@) == Some(e2@),
            None => spec_shift(d as int, x@, c, e@) is None,
        },
    decreases e,
{
    match e {
        Expr::Var(v) => shift_var(d, x, n, Ghost(c), v),
        Expr::Lam(y, a, b) => {
            let n2 = cut_under(x, n, y, Ghost(c));
            let a2 = shift_from(d, x, n, Ghost(c), a);
            let b2 = shift_from(d, x, n2, Ghost(under(x@, c, y@)), b);
            match (a2, b2) {
                (Some(a2), Some(b2)) => Some(Expr::Lam(y.clone(), Box::new(a2), Box::new(b2))),
                _ => None,
            }
        },
        Expr::Pi(y, a, b) => {
            let n2 = cut_under(x, n, y, Ghost(c));
            let a2 = shift_from(d, x, n, Ghost(c), a);
            let b2 = shift_from(d, x, n2, Ghost(under(x@, c, y@)), b);
            match (a2, b2) {
                (Some(a2), Some(b2)) => Some(Expr::Pi(y.clone(), Box::new(a2), Box::new(b2))),
                _ => None,
            }
        },
        Expr::Let(y, ot, v, b) => {
            let n2 = cut_under(x, n, y, Ghost(c));
            let t2 = shift_opt(d, x, n, Ghost(c), ot);
            let v2 = shift_from(d, x, n, Ghost(c), v);
            let b2 = shift_from(d, x, n2, Ghost(under(x@, c, y@)), b);
            match (t2, v2, b2) {
                (Some(t2), Some(v2), Some(b2)) => Some(
                    Expr::Let(y.clone(), t2, Box::new(v2), Box::new(b2)),
                ),
                _ => None,
            }
        },
        Expr::App(f, a) => {
            let f2 = shift_from(d, x, n, Ghost(c), f);
            let a2 = shift_from(d, x, n, Ghost(c), a);
            match (f2, a2) {
                (Some(f2), Some(a2)) => Some(Expr::App(Box::new(f2), Box::new(a2))),
                _ => None,
            }
        },
        Expr::Annot(a, b) => {
            let a2 = shift_from(d, x, n, Ghost(c), a);
            let b2 = shift_from(d, x, n, Ghost(c), b);
            match (a2, b2) {
                (Some(a2), Some(b2)) => Some(Expr::Annot(Box::new(a2), Box::new(b2))),
                _ => None,
            }
        },
        Expr::Assert(a) => match shift_from(d, x, n, Ghost(c), a) {
            Some(a2) => Some(Expr::Assert(Box::new(a2))),
            None => None,
        },
        Expr::TextLit(chunks, tail) => match shift_fields(d, x, n, Ghost(c), chunks) {
            Some(c2) => Some(Expr::TextLit(c2, tail.clone())),
            None => None,
        },
        Expr::BinOp(o, l, r) => {
            let l2 = shift_from(d, x, n, Ghost(c), l);
            let r2 = shift_from(d, x, n, Ghost(c), r);
            match (l2, r2) {
                (Some(l2), Some(r2)) => Some(Expr::BinOp(*o, Box::new(l2), Box::new(r2))),
                _ => None,
            }
        },
        Expr::BoolIf(p, a, b) => {
            let c2 = shift_from(d, x, n, Ghost(c), p);
            let a2 = shift_from(d, x, n, Ghost(c), a);
            let b2 = shift_from(d, x, n, Ghost(c), b);
            match (c2, a2, b2) {
                (Some(c2), Some(a2), Some(b2)) => Some(
                    Expr::BoolIf(Box::new(c2), Box::new(a2), Box::new(b2)),
                ),
                _ => None,
            }
        },
        Expr::EmptyListLit(a) => match shift_from(d, x, n, Ghost(c), a) {
            Some(a2) => Some(Expr::EmptyListLit(Box::new(a2))),
            None => None,
        },
        Expr::NEListLit(a, rest) => {
            let a2 = shift_from(d, x, n, Ghost(c), a);
            let r2 = shift_terms(d, x, n, Ghost(c), rest);
            match (a2, r2) {
                (Some(a2), Some(r2)) => Some(Expr::NEListLit(Box::new(a2), r2)),
                _ => None,
            }
        },
        Expr::SomeLit(a) => match shift_from(d, x, n, Ghost(c), a) {
            Some(a2) => Some(Expr::SomeLit(Box::new(a2))),
            None => None,
        },
        Expr::RecordType(fs) => match shift_fields(d, x, n, Ghost(c), fs) {
            Some(f2) => Some(Expr::RecordType(f2)),
            None => None,
        },
        Expr::RecordLit(fs) => match shift_fields(d, x, n, Ghost(c), fs) {
            Some(f2) => Some(Expr::RecordLit(f2)),
            None => None,
        },
        Expr::UnionType(fs) => match shift_alts(d, x, n, Ghost(c), fs) {
            Some(f2) => Some(Expr::UnionType(f2)),
            None => None,
        },
        Expr::Merge(r, u, ot) => {
            let r2 = shift_from(d, x, n, Ghost(c), r);
            let u2 = shift_from(d, x, n, Ghost(c), u);
            let t2 = shift_opt(d, x, n, Ghost(c), ot);
            match (r2, u2, t2) {
                (Some(r2), Some(u2), Some(t2)) => Some(Expr::Merge(Box::new(r2), Box::new(u2), t2)),
                _ => None,
            }
        },
        Expr::Field(r, l) => match shift_from(d, x, n, Ghost(c), r) {
            Some(r2) => Some(Expr::Field(Box::new(r2), l.clone())),
            None => None,
        },
        Expr::Projection(r, ls) => match shift_from(d, x, n, Ghost(c), r) {
            Some(r2) => Some(Expr::Projection(Box::new(r2), clone_names(ls))),
            None => None,
        },
        _ => Some(clone_expr(e)),
    }
}

/// Shifts the variables of `e` that are free at `v` by `d`.
pub fn shift(d: i64, v: &V, e: &Expr) -> (r: Option<Expr>)
    ensures
        opt_term_of(r) == spec_shift(d as int, v.0@, v.1 as nat, e@),
{
    shift_from(d, &v.0, Some(v.1), Ghost(v.1 as nat), e)
}

fn subst_var(x: &String, n: Option<u64>, Ghost(c): Ghost<nat>, val: &Expr, v: &V) -> (r: Expr)
    requires
        cut_is(n, c),
    ensures
        spec_subst_shift(x@, c, val@, Term::Var(v.0@, v.1)) == Some(r@),
{
    if !same_name(&v.0, x) {
        return Expr::Var(clone_var(v));
    }
    match n {
        Some(m) => {
            if v.1 == m {
                clone_expr(val)
            } else if v.1 > m {
                Expr::Var(V(v.0.clone(), v.1 - 1))
            } else {
                Expr::Var(clone_var(v))
            }
        },
        None => Expr::Var(clone_var(v)),
    }
}

fn subst_opt(x: &String, n: Option<u64>, Ghost(c): Ghost<nat>, val: &Expr, o: &Option<Box<Expr>>) -> (r:
    Option<Option<Box<Expr>>>)
    requires
        cut_is(n, c),
    ensures
        match *o {
            Some(e) => match r {
                Some(Some(e2)) => spec_subst_shift(x@, c, val@, e@) == Some(e2@),
                Some(None) => false,
                None => spec_subst_shift(x@, c, val@, e@) is None,
            },
            None => r == Some(None::<Box<Expr>>),
        },
    decreases o,
{
    match o {
        Some(e) => match subst_from(x, n, Ghost(c), val, e) {
            Some(e2) => Some(Some(Box::new(e2))),
            None => None,
        },
        None => Some(None),
    }
}

fn subst_fields(x: &String, n: Option<u64>, Ghost(c): Ghost<nat>, val: &Expr, fs: &Vec<(String, Expr)>) -> (r:
    Option<Vec<(String, Expr)>>)
    requires
        cut_is(n, c),
    ensures
        match r {
            Some(out) => spec_subst_fields(x@, c, val@, fields_of(*fs), fs.len() as nat)
                == Some(fields_of(out)),
            None => spec_subst_fields(x@, c, val@, fields_of(*fs), fs.len() as nat) is None,
        },
    decreases fs,
{
    let mut out: Vec<(String, Expr)> = Vec::new();
    let mut ok = true;
    let mut i: usize = 0;
    while i < fs.len()
        invariant
            i <= fs.len(),
            cut_is(n, c),
            ok ==> spec_subst_fields(x@, c, val@, fields_of(*fs), i as nat) == Some(
                fields_of(out),
            ),
            !ok ==> spec_subst_fields(x@, c, val@, fields_of(*fs), i as nat) is None,
        decreases fs.len() - i,
    {
        if ok {
            proof {
                assert(decreases_to!(*fs => fs[i as int]));
                assert(decreases_to!(fs[i as int] => fs[i as int].1));
            }
            match subst_from(x, n, Ghost(c), val, &fs[i].1) {
                Some(t) => {
                    let ghost prev = fields_of(out);
                    out.push((fs[i].0.clone(), t));
                    assert(fields_of(out) =~= prev.push((fs[i as int].0@, t@)));
                },
                None => {
                    ok = false;
                },
            }
        }
        i += 1;
    }
    if ok {
        Some(out)
    } else {
        None
    }
}

fn subst_terms(x: &String, n: Option<u64>, Ghost(c): Ghost<nat>, val: &Expr, es: &Vec<Expr>) -> (r:
    Option<Vec<Expr>>)
    requires
        cut_is(n, c),
    ensures
        match r {
            Some(out) => spec_subst_terms(x@, c, val@, terms_of(*es), es.len() as nat) == Some(
                terms_of(out),
            ),
            None => spec_subst_terms(x@, c, val@, terms_of(*es), es.len() as nat) is None,
        },
    decreases es,
{
    let mut out: Vec<Expr> = Vec::new();
    let mut ok = true;
    let mut i: usize = 0;
    while i < es.len()
        invariant
            i <= es.len(),
            cut_is(n, c),
            ok ==> spec_subst_terms(x@, c, val@, terms_of(*es), i as nat) == Some(
                terms_of(out),
            ),
            !ok ==> spec_subst_terms(x@, c, val@, terms_of(*es), i as nat) is None,
        decreases es.len() - i,
    {
        if ok {
            match subst_from(x, n, Ghost(c), val, &es[i]) {
                Some(t) => {
                    let ghost prev = terms_of(out);
                    out.push(t);
                    assert(terms_of(out) =~= prev.push(t@));
                },
                None => {
                    ok = false;
                },
            }
        }
        i += 1;
    }
    if ok {
        Some(out)
    } else {
        None
    }
}

fn subst_alts(
    x: &String,
    n: Option<u64>,
    Ghost(c): Ghost<nat>,
    val: &Expr,
    fs: &Vec<(String, Option<Expr>)>,
) -> (r: Option<Vec<(String, Option<Expr>)>>)
    requires
        cut_is(n, c),
    ensures
        match r {
            Some(out) => spec_subst_alts(x@, c, val@, alternatives_of(*fs), fs.len() as nat)
                == Some(alternatives_of(out)),
            None => spec_subst_alts(x@, c, val@, alternatives_of(*fs), fs.len() as nat) is None,
        },
    decreases fs,
{
    let mut out: Vec<(String, Option<Expr>)> = Vec::new();
    let mut ok = true;
    let mut i: usize = 0;
    while i < fs.len()
        invariant
            i <= fs.len(),
            cut_is(n, c),
            ok ==> spec_subst_alts(x@, c, val@, alternatives_of(*fs), i as nat) == Some(
                alternatives_of(out),
            ),
            !ok ==> spec_subst_alts(x@, c, val@, alternatives_of(*fs), i as nat) is None,
        decreases fs.len() - i,
    {
        if ok {
            let ghost prev = alternatives_of(out);
            match &fs[i].1 {
                Some(e) => {
                    proof {
                        assert(decreases_to!(*fs => fs[i as int]));
                        assert(decreases_to!(fs[i as int] => fs[i as int].1));
                        assert(decreases_to!(fs[i as int].1 => fs[i as int].1->Some_0));
                    }
                    match subst_from(x, n, Ghost(c), val, e) {
                        Some(t) => {
                            out.push((fs[i].0.clone(), Some(t)));
                            assert(alternatives_of(out) =~= prev.push((fs[i as int].0@, Some(t@))));
                        },
                        None => {
                            ok = false;
                        },
                    }
                },
                None => {
                    out.push((fs[i].0.clone(), None));
                    assert(alternatives_of(out) =~= prev.push((fs[i as int].0@, None)));
                },
            }
        }
        i += 1;
    }
    if ok {
        Some(out)
    } else {
        None
    }
}

#[verifier::rlimit(50)]
pub(crate) fn subst_from(x: &String, n: Option<u64>, Ghost(c): Ghost<nat>, val: &Expr, e: &Expr) -> (r: Option<
    Expr,
>)
    requires
        cut_is(n, c),
    ensures
        match r {
            Some(e2) => spec_subst_shift(x@, c, val@, e@) == Some(e2@),
            None => spec_subst_shift(x@, c, val@, e@) is None,
        },
    decreases e,
{
    match e {
        Expr::Var(v) => Some(subst_var(x, n, Ghost(c), val, v)),
        Expr::Lam(y, a, b) => {
            let n2 = cut_under(x, n, y, Ghost(c));
            match shift_from(1, y, Some(0), Ghost(0), val) {
                Some(val2) => {
                    let a2 = subst_from(x, n, Ghost(c), val, a);
                    let b2 = subst_from(x, n2, Ghost(under(x@, c, y@)), &val2, b);
                    match (a2, b2) {
                        (Some(a2), Some(b2)) => Some(
                            Expr::Lam(y.clone(), Box::new(a2), Box::new(b2)),
                        ),
                        _ => None,
                    }
                },
                None => None,
            }
        },
        Expr::Pi(y, a, b) => {
            let n2 = cut_under(x, n, y, Ghost(c));
            match shift_from(1, y, Some(0), Ghost(0), val) {
                Some(val2) => {
                    let a2 = subst_from(x, n, Ghost(c), val, a);
                    let b2 = subst_from(x, n2, Ghost(under(x@, c, y@)), &val2, b);
                    match (a2, b2) {
                        (Some(a2), Some(b2)) => Some(
                            Expr::Pi(y.clone(), Box::new(a2), Box::new(b2)),
                        ),
                        _ => None,
                    }
                },
                None => None,
            }
        },
        Expr::Let(y, ot, v, b) => {
            let n2 = cut_under(x, n, y, Ghost(c));
            match shift_from(1, y, Some(0), Ghost(0), val) {
                Some(val2) => {
                    let t2 = subst_opt(x, n, Ghost(c), val, ot);
                    let v2 = subst_from(x, n, Ghost(c), val, v);
                    let b2 = subst_from(x, n2, Ghost(under(x@, c, y@)), &val2, b);
                    match (t2, v2, b2) {
                        (Some(t2), Some(v2), Some(b2)) => Some(
                            Expr::Let(y.clone(), t2, Box::new(v2), Box::new(b2)),
                        ),
                        _ => None,
                    }
                },
                None => None,
            }
        },
        Expr::App(f, a) => {
            let f2 = subst_from(x, n, Ghost(c), val, f);
            let a2 = subst_from(x, n, Ghost(c), val, a);
            match (f2, a2) {
                (Some(f2), Some(a2)) => Some(Expr::App(Box::new(f2), Box::new(a2))),
                _ => None,
            }
        },
        Expr::Annot(a, b) => {
            let a2 = subst_from(x, n, Ghost(c), val, a);
            let b2 = subst_from(x, n, Ghost(c), val, b);
            match (a2, b2) {
                (Some(a2), Some(b2)) => Some(Expr::Annot(Box::new(a2), Box::new(b2))),
                _ => None,
            }
        },
        Expr::Assert(a) => match subst_from(x, n, Ghost(c), val, a) {
            Some(a2) => Some(Expr::Assert(Box::new(a2))),
            None => None,
        },
        Expr::TextLit(chunks, tail) => match subst_fields(x, n, Ghost(c), val, chunks) {
            Some(c2) => Some(Expr::TextLit(c2, tail.clone())),
            None => None,
        },
        Expr::BinOp(o, l, r) => {
            let l2 = subst_from(x, n, Ghost(c), val, l);
            let r2 = subst_from(x, n, Ghost(c), val, r);
            match (l2, r2) {
                (Some(l2), Some(r2)) => Some(Expr::BinOp(*o, Box::new(l2), Box::new(r2))),
                _ => None,
            }
        },
        Expr::BoolIf(p, a, b) => {
            let c2 = subst_from(x, n, Ghost(c), val, p);
            let a2 = subst_from(x, n, Ghost(c), val, a);
            let b2 = subst_from(x, n, Ghost(c), val, b);
            match (c2, a2, b2) {
                (Some(c2), Some(a2), Some(b2)) => Some(
                    Expr::BoolIf(Box::new(c2), Box::new(a2), Box::new(b2)),
                ),
                _ => None,
            }
        },
        Expr::EmptyListLit(a) => match subst_from(x, n, Ghost(c), val, a) {
            Some(a2) => Some(Expr::EmptyListLit(Box::new(a2))),
            None => None,
        },
        Expr::NEListLit(a, rest) => {
            let a2 = subst_from(x, n, Ghost(c), val, a);
            let r2 = subst_terms(x, n, Ghost(c), val, rest);
            match (a2, r2) {
                (Some(a2), Some(r2)) => Some(Expr::NEListLit(Box::new(a2), r2)),
                _ => None,
            }
        },
        Expr::SomeLit(a) => match subst_from(x, n, Ghost(c), val, a) {
            Some(a2) => Some(Expr::SomeLit(Box::new(a2))),
            None => None,
        },
        Expr::RecordType(fs) => match subst_fields(x, n, Ghost(c), val, fs) {
            Some(f2) => Some(Expr::RecordType(f2)),
            None => None,
        },
        Expr::RecordLit(fs) => match subst_fields(x, n, Ghost(c), val, fs) {
            Some(f2) => Some(Expr::RecordLit(f2)),
            None => None,
        },
        Expr::UnionType(fs) => match subst_alts(x, n, Ghost(c), val, fs) {
            Some(f2) => Some(Expr::UnionType(f2)),
            None => None,
        },
        Expr::Merge(r, u, ot) => {
            let r2 = subst_from(x, n, Ghost(c), val, r);
            let u2 = subst_from(x, n, Ghost(c), val, u);
            let t2 = subst_opt(x, n, Ghost(c), val, ot);
            match (r2, u2, t2) {
                (Some(r2), Some(u2), Some(t2)) => Some(Expr::Merge(Box::new(r2), Box::new(u2), t2)),
                _ => None,
            }
        },
        Expr::Field(r, l) => match subst_from(x, n, Ghost(c), val, r) {
            Some(r2) => Some(Expr::Field(Box::new(r2), l.clone())),
            None => None,
        },
        Expr::Projection(r, ls) => match subst_from(x, n, Ghost(c), val, r) {
            Some(r2) => Some(Expr::Projection(Box::new(r2), clone_names(ls))),
            None => None,
        },
        _ => Some(clone_expr(e)),
    }
}


/// Replaces the variable `v` in `e` by `val` and lowers by one the index
/// of every variable of the same name above it: what is left of `e` when
/// the binder of `v` is removed and `val` put in its place.
pub fn subst_shift(v: &V, val: &Expr, e: &Expr) -> (r: Option<Expr>)
    ensures
        opt_term_of(r) == spec_subst_shift(v.0@, v.1 as nat, val@, e@),
{
    subst_from(&v.0, Some(v.1), Ghost(v.1 as nat), val, e)
}

/// The function, function type or `let` `t` with its variable renamed to
/// `y`: in the body, `y@0` stands where the variable stood. `None` for
/// another expression.
pub open spec fn spec_rename(t: Term, y: Name) -> Option<Term> {
    match t {
        Term::Lam(x, a, b) => match spec_subst_shift(x, 0, Term::Var(y, 0), *b) {
            Some(b2) => Some(Term::Lam(y, a, Box::new(b2))),
            None => None,
        },
        Term::Pi(x, a, b) => match spec_subst_shift(x, 0, Term::Var(y, 0), *b) {
            Some(b2) => Some(Term::Pi(y, a, Box::new(b2))),
            None => None,
        },
        Term::Let(x, ot, v, b) => match spec_subst_shift(x, 0, Term::Var(y, 0), *b) {
            Some(b2) => Some(Term::Let(y, ot, v, Box::new(b2))),
            None => None,
        },
        _ => None,
    }
}

/// Renames the variable that the function, function type or `let` `e`
/// binds to `y`.
pub fn rename(e: &Expr, y: &String) -> (r: Option<Expr>)
    ensures
        opt_term_of(r) == spec_rename(e@, y@),
{
    let fresh = Expr::Var(V(y.clone(), 0));
    match e {
        Expr::Lam(x, a, b) => match subst_from(x, Some(0), Ghost(0), &fresh, b) {
            Some(b2) => Some(Expr::Lam(y.clone(), Box::new(clone_expr(a)), Box::new(b2))),
            None => None,
        },
        Expr::Pi(x, a, b) => match subst_from(x, Some(0), Ghost(0), &fresh, b) {
            Some(b2) => Some(Expr::Pi(y.clone(), Box::new(clone_expr(a)), Box::new(b2))),
            None => None,
        },
        Expr::Let(x, ot, v, b) => match subst_from(x, Some(0), Ghost(0), &fresh, b) {
            Some(b2) => Some(
                Expr::Let(
                    y.clone(),
                    crate::syntax::clone_opt_box(ot),
                    Box::new(clone_expr(v)),
                    Box::new(b2),
                ),
            ),
            None => None,
        },
        _ => None,
    }
}

} // verus!
