//! Laws of shifting.

use vstd::prelude::*;
use crate::syntax::{Alternatives, Fields, Name, Term};
use crate::var::{spec_shift, spec_shift_alts, spec_shift_fields, spec_shift_terms};

verus! {

proof fn lemma_shift_zero_fields(x: Name, n: nat, fs: Fields, k: nat)
    requires
        k <= fs.len(),
    ensures
        spec_shift_fields(0, x, n, fs, k) == Some(fs.take(k as int)),
    decreases fs, k,
{
    if k > 0 {
        lemma_shift_zero_fields(x, n, fs, (k - 1) as nat);
        lemma_shift_zero(x, n, fs[k - 1].1);
        assert(fs.take(k as int) =~= fs.take(k - 1).push(fs[k - 1]));
    } else {
        assert(fs.take(0) =~= Seq::empty());
    }
}

proof fn lemma_shift_zero_terms(x: Name, n: nat, ts: Seq<Term>, k: nat)
    requires
        k <= ts.len(),
    ensures
        spec_shift_terms(0, x, n, ts, k) == Some(ts.take(k as int)),
    decreases ts, k,
{
    if k > 0 {
        lemma_shift_zero_terms(x, n, ts, (k - 1) as nat);
        lemma_shift_zero(x, n, ts[k - 1]);
        assert(ts.take(k as int) =~= ts.take(k - 1).push(ts[k - 1]));
    } else {
        assert(ts.take(0) =~= Seq::empty());
    }
}

proof fn lemma_shift_zero_alts(x: Name, n: nat, fs: Alternatives, k: nat)
    requires
        k <= fs.len(),
    ensures
        spec_shift_alts(0, x, n, fs, k) == Some(fs.take(k as int)),
    decreases fs, k,
{
    if k > 0 {
        lemma_shift_zero_alts(x, n, fs, (k - 1) as nat);
        match fs[k - 1].1 {
            Some(t0) => {
                lemma_shift_zero(x, n, t0);
            },
            None => {},
        }
        assert(fs.take(k as int) =~= fs.take(k - 1).push(fs[k - 1]));
    } else {
        assert(fs.take(0) =~= Seq::empty());
    }
}

/// A shift by zero changes nothing: at every cutoff, for every name, it
/// gives the term back.
pub proof fn lemma_shift_zero(x: Name, n: nat, t: Term)
    ensures
        spec_shift(0, x, n, t) == Some(t),
    decreases t, 0nat,
{
    match t {
        Term::Lam(y, a, b) => {
            lemma_shift_zero(x, n, *a);
            lemma_shift_zero(x, crate::var::under(x, n, y), *b);
        },
        Term::Pi(y, a, b) => {
            lemma_shift_zero(x, n, *a);
            lemma_shift_zero(x, crate::var::under(x, n, y), *b);
        },
        Term::Let(y, ot, v, b) => {
            lemma_shift_zero(x, n, *v);
            lemma_shift_zero(x, crate::var::under(x, n, y), *b);
            match ot {
                Some(t0) => {
                    lemma_shift_zero(x, n, *t0);
                },
                None => {},
            }
        },
        Term::App(f, a) => {
            lemma_shift_zero(x, n, *f);
            lemma_shift_zero(x, n, *a);
        },
        Term::Annot(a, b) => {
            lemma_shift_zero(x, n, *a);
            lemma_shift_zero(x, n, *b);
        },
        Term::Assert(a) => {
            lemma_shift_zero(x, n, *a);
        },
        Term::TextLit(chunks, tail) => {
            lemma_shift_zero_fields(x, n, chunks, chunks.len());
            assert(chunks.take(chunks.len() as int) =~= chunks);
        },
        Term::BinOp(o, l, r) => {
            lemma_shift_zero(x, n, *l);
            lemma_shift_zero(x, n, *r);
        },
        Term::BoolIf(c, a, b) => {
            lemma_shift_zero(x, n, *c);
            lemma_shift_zero(x, n, *a);
            lemma_shift_zero(x, n, *b);
        },
        Term::EmptyListLit(a) => {
            lemma_shift_zero(x, n, *a);
        },
        Term::NEListLit(a, rest) => {
            lemma_shift_zero(x, n, *a);
            lemma_shift_zero_terms(x, n, rest, rest.len());
            assert(rest.take(rest.len() as int) =~= rest);
        },
        Term::SomeLit(a) => {
            lemma_shift_zero(x, n, *a);
        },
        Term::RecordType(fs) => {
            lemma_shift_zero_fields(x, n, fs, fs.len());
            assert(fs.take(fs.len() as int) =~= fs);
        },
        Term::RecordLit(fs) => {
            lemma_shift_zero_fields(x, n, fs, fs.len());
            assert(fs.take(fs.len() as int) =~= fs);
        },
        Term::UnionType(fs) => {
            lemma_shift_zero_alts(x, n, fs, fs.len());
            assert(fs.take(fs.len() as int) =~= fs);
        },
        Term::Merge(r, u, ot) => {
            lemma_shift_zero(x, n, *r);
            lemma_shift_zero(x, n, *u);
            match ot {
                Some(t0) => {
                    lemma_shift_zero(x, n, *t0);
                },
                None => {},
            }
        },
        Term::Field(r, l) => {
            lemma_shift_zero(x, n, *r);
        },
        Term::Projection(r, ls) => {
            lemma_shift_zero(x, n, *r);
        },
        _ => {},
    }
}

/// The two shifts `d` and `d2` go the same way.
pub open spec fn same_direction(d: int, d2: int) -> bool {
    (d >= 0 && d2 >= 0) || (d <= 0 && d2 <= 0)
}

/// A shift by `d2`, then one by `d`: `None` where either is.
pub open spec fn shift_twice(d: int, d2: int, x: Name, n: nat, t: Term) -> Option<Term> {
    match spec_shift(d2, x, n, t) {
        Some(t1) => spec_shift(d, x, n, t1),
        None => None,
    }
}

proof fn lemma_shift_fields_prefix(d: int, x: Name, n: nat, fs: Fields, gs: Fields, k: nat)
    requires
        k <= fs.len(),
        k <= gs.len(),
        forall|i: int| 0 <= i < k ==> fs[i] == gs[i],
    ensures
        spec_shift_fields(d, x, n, fs, k) == spec_shift_fields(d, x, n, gs, k),
    decreases k,
{
    if k > 0 {
        lemma_shift_fields_prefix(d, x, n, fs, gs, (k - 1) as nat);
    }
}

proof fn lemma_shift_terms_prefix(d: int, x: Name, n: nat, fs: Seq<Term>, gs: Seq<Term>, k: nat)
    requires
        k <= fs.len(),
        k <= gs.len(),
        forall|i: int| 0 <= i < k ==> fs[i] == gs[i],
    ensures
        spec_shift_terms(d, x, n, fs, k) == spec_shift_terms(d, x, n, gs, k),
    decreases k,
{
    if k > 0 {
        lemma_shift_terms_prefix(d, x, n, fs, gs, (k - 1) as nat);
    }
}

proof fn lemma_shift_alts_prefix(
    d: int,
    x: Name,
    n: nat,
    fs: Alternatives,
    gs: Alternatives,
    k: nat,
)
    requires
        k <= fs.len(),
        k <= gs.len(),
        forall|i: int| 0 <= i < k ==> fs[i] == gs[i],
    ensures
        spec_shift_alts(d, x, n, fs, k) == spec_shift_alts(d, x, n, gs, k),
    decreases k,
{
    if k > 0 {
        lemma_shift_alts_prefix(d, x, n, fs, gs, (k - 1) as nat);
    }
}

proof fn lemma_shift_twice_fields(d: int, d2: int, x: Name, n: nat, fs: Fields, k: nat)
    requires
        same_direction(d, d2),
        k <= fs.len(),
    ensures
        match spec_shift_fields(d2, x, n, fs, k) {
            Some(f1) => f1.len() == k && spec_shift_fields(d, x, n, f1, k) == spec_shift_fields(
                d + d2,
                x,
                n,
                fs,
                k,
            ),
            None => spec_shift_fields(d + d2, x, n, fs, k) is None,
        },
    decreases fs, k,
{
    if k > 0 {
        lemma_shift_twice_fields(d, d2, x, n, fs, (k - 1) as nat);
        lemma_shift_twice(d, d2, x, n, fs[k - 1].1);
        match spec_shift_fields(d2, x, n, fs, (k - 1) as nat) {
            Some(done) => match spec_shift(d2, x, n, fs[k - 1].1) {
                Some(t1) => {
                    let f1 = done.push((fs[k - 1].0, t1));
                    lemma_shift_fields_prefix(d, x, n, f1, done, (k - 1) as nat);
                },
                None => {},
            },
            None => {},
        }
    }
}

proof fn lemma_shift_twice_terms(d: int, d2: int, x: Name, n: nat, ts: Seq<Term>, k: nat)
    requires
        same_direction(d, d2),
        k <= ts.len(),
    ensures
        match spec_shift_terms(d2, x, n, ts, k) {
            Some(f1) => f1.len() == k && spec_shift_terms(d, x, n, f1, k) == spec_shift_terms(
                d + d2,
                x,
                n,
                ts,
                k,
            ),
            None => spec_shift_terms(d + d2, x, n, ts, k) is None,
        },
    decreases ts, k,
{
    if k > 0 {
        lemma_shift_twice_terms(d, d2, x, n, ts, (k - 1) as nat);
        lemma_shift_twice(d, d2, x, n, ts[k - 1]);
        match spec_shift_terms(d2, x, n, ts, (k - 1) as nat) {
            Some(done) => match spec_shift(d2, x, n, ts[k - 1]) {
                Some(t1) => {
                    let f1 = done.push(t1);
                    lemma_shift_terms_prefix(d, x, n, f1, done, (k - 1) as nat);
                },
                None => {},
            },
            None => {},
        }
    }
}

proof fn lemma_shift_twice_alts(d: int, d2: int, x: Name, n: nat, fs: Alternatives, k: nat)
    requires
        same_direction(d, d2),
        k <= fs.len(),
    ensures
        match spec_shift_alts(d2, x, n, fs, k) {
            Some(f1) => f1.len() == k && spec_shift_alts(d, x, n, f1, k) == spec_shift_alts(
                d + d2,
                x,
                n,
                fs,
                k,
            ),
            None => spec_shift_alts(d + d2, x, n, fs, k) is None,
        },
    decreases fs, k,
{
    if k > 0 {
        lemma_shift_twice_alts(d, d2, x, n, fs, (k - 1) as nat);
        match spec_shift_alts(d2, x, n, fs, (k - 1) as nat) {
            Some(done) => match fs[k - 1].1 {
                Some(t0) => {
                    lemma_shift_twice(d, d2, x, n, t0);
                    match spec_shift(d2, x, n, t0) {
                        Some(t1) => {
                            let f1 = done.push((fs[k - 1].0, Some(t1)));
                            lemma_shift_alts_prefix(d, x, n, f1, done, (k - 1) as nat);
                        },
                        None => {},
                    }
                },
                None => {
                    let f1 = done.push((fs[k - 1].0, None));
                    lemma_shift_alts_prefix(d, x, n, f1, done, (k - 1) as nat);
                },
            },
            None => {
                match fs[k - 1].1 {
                    Some(t0) => {
                        lemma_shift_twice(d, d2, x, n, t0);
                    },
                    None => {},
                }
            },
        }
    }
}

proof fn lemma_shift_twice_var(d: int, d2: int, x: Name, n: nat, t: Term)
    requires
        same_direction(d, d2),
        t is Var,
    ensures
        spec_shift(d + d2, x, n, t) == shift_twice(d, d2, x, n, t),
{
}

proof fn lemma_shift_twice_one(d: int, d2: int, x: Name, n: nat, t: Term, a: Term)
    requires
        same_direction(d, d2),
        spec_shift(d + d2, x, n, a) == shift_twice(d, d2, x, n, a),
        t == Term::Assert(Box::new(a)) || t == Term::EmptyListLit(Box::new(a)) || t
            == Term::SomeLit(Box::new(a)) || (t is Field && *t->Field_0 == a) || (t is Projection
            && *t->Projection_0 == a),
    ensures
        spec_shift(d + d2, x, n, t) == shift_twice(d, d2, x, n, t),
{
}

proof fn lemma_shift_twice_two(d: int, d2: int, x: Name, n: nat, t: Term, a: Term, b: Term)
    requires
        same_direction(d, d2),
        spec_shift(d + d2, x, n, a) == shift_twice(d, d2, x, n, a),
        spec_shift(d + d2, x, n, b) == shift_twice(d, d2, x, n, b),
        t == Term::App(Box::new(a), Box::new(b)) || t == Term::Annot(Box::new(a), Box::new(b)) || (t
            is BinOp && *t->BinOp_1 == a && *t->BinOp_2 == b),
    ensures
        spec_shift(d + d2, x, n, t) == shift_twice(d, d2, x, n, t),
{
}

proof fn lemma_shift_twice_binder(d: int, d2: int, x: Name, n: nat, t: Term, y: Name, a: Term, b: Term)
    requires
        same_direction(d, d2),
        spec_shift(d + d2, x, n, a) == shift_twice(d, d2, x, n, a),
        spec_shift(d + d2, x, crate::var::under(x, n, y), b) == shift_twice(
            d,
            d2,
            x,
            crate::var::under(x, n, y),
            b,
        ),
        t == Term::Lam(y, Box::new(a), Box::new(b)) || t == Term::Pi(y, Box::new(a), Box::new(b)),
    ensures
        spec_shift(d + d2, x, n, t) == shift_twice(d, d2, x, n, t),
{
}

proof fn lemma_shift_twice_let(d: int, d2: int, x: Name, n: nat, t: Term)
    requires
        same_direction(d, d2),
        t is Let,
        spec_shift(d + d2, x, n, *t->Let_2) == shift_twice(d, d2, x, n, *t->Let_2),
        spec_shift(d + d2, x, crate::var::under(x, n, t->Let_0), *t->Let_3) == shift_twice(
            d,
            d2,
            x,
            crate::var::under(x, n, t->Let_0),
            *t->Let_3,
        ),
        t->Let_1 matches Some(t0) ==> spec_shift(d + d2, x, n, *t0) == shift_twice(
            d,
            d2,
            x,
            n,
            *t0,
        ),
    ensures
        spec_shift(d + d2, x, n, t) == shift_twice(d, d2, x, n, t),
{
}

proof fn lemma_shift_twice_merge(d: int, d2: int, x: Name, n: nat, t: Term)
    requires
        same_direction(d, d2),
        t is Merge,
        spec_shift(d + d2, x, n, *t->Merge_0) == shift_twice(d, d2, x, n, *t->Merge_0),
        spec_shift(d + d2, x, n, *t->Merge_1) == shift_twice(d, d2, x, n, *t->Merge_1),
        t->Merge_2 matches Some(t0) ==> spec_shift(d + d2, x, n, *t0) == shift_twice(
            d,
            d2,
            x,
            n,
            *t0,
        ),
    ensures
        spec_shift(d + d2, x, n, t) == shift_twice(d, d2, x, n, t),
{
}

proof fn lemma_shift_twice_if(d: int, d2: int, x: Name, n: nat, t: Term)
    requires
        same_direction(d, d2),
        t is BoolIf,
        spec_shift(d + d2, x, n, *t->BoolIf_0) == shift_twice(d, d2, x, n, *t->BoolIf_0),
        spec_shift(d + d2, x, n, *t->BoolIf_1) == shift_twice(d, d2, x, n, *t->BoolIf_1),
        spec_shift(d + d2, x, n, *t->BoolIf_2) == shift_twice(d, d2, x, n, *t->BoolIf_2),
    ensures
        spec_shift(d + d2, x, n, t) == shift_twice(d, d2, x, n, t),
{
}

/// What `lemma_shift_twice_terms` states of a whole list.
spec fn twice_terms(d: int, d2: int, x: Name, n: nat, ts: Seq<Term>) -> bool {
    match spec_shift_terms(d2, x, n, ts, ts.len()) {
        Some(f1) => f1.len() == ts.len() && spec_shift_terms(d, x, n, f1, ts.len())
            == spec_shift_terms(d + d2, x, n, ts, ts.len()),
        None => spec_shift_terms(d + d2, x, n, ts, ts.len()) is None,
    }
}

/// What `lemma_shift_twice_fields` states of a whole list.
spec fn twice_fields(d: int, d2: int, x: Name, n: nat, fs: Fields) -> bool {
    match spec_shift_fields(d2, x, n, fs, fs.len()) {
        Some(f1) => f1.len() == fs.len() && spec_shift_fields(d, x, n, f1, fs.len())
            == spec_shift_fields(d + d2, x, n, fs, fs.len()),
        None => spec_shift_fields(d + d2, x, n, fs, fs.len()) is None,
    }
}

/// What `lemma_shift_twice_alts` states of a whole list.
spec fn twice_alts(d: int, d2: int, x: Name, n: nat, fs: Alternatives) -> bool {
    match spec_shift_alts(d2, x, n, fs, fs.len()) {
        Some(f1) => f1.len() == fs.len() && spec_shift_alts(d, x, n, f1, fs.len())
            == spec_shift_alts(d + d2, x, n, fs, fs.len()),
        None => spec_shift_alts(d + d2, x, n, fs, fs.len()) is None,
    }
}

proof fn lemma_shift_twice_list(d: int, d2: int, x: Name, n: nat, t: Term)
    requires
        same_direction(d, d2),
        t is NEListLit,
        spec_shift(d + d2, x, n, *t->NEListLit_0) == shift_twice(d, d2, x, n, *t->NEListLit_0),
        twice_terms(d, d2, x, n, t->NEListLit_1),
    ensures
        spec_shift(d + d2, x, n, t) == shift_twice(d, d2, x, n, t),
{
}

proof fn lemma_shift_twice_record(d: int, d2: int, x: Name, n: nat, t: Term)
    requires
        same_direction(d, d2),
        t is RecordType || t is RecordLit || t is TextLit || t is UnionType,
        t matches Term::RecordType(fs) ==> twice_fields(d, d2, x, n, fs),
        t matches Term::RecordLit(fs) ==> twice_fields(d, d2, x, n, fs),
        t matches Term::TextLit(fs, _) ==> twice_fields(d, d2, x, n, fs),
        t matches Term::UnionType(fs) ==> twice_alts(d, d2, x, n, fs),
    ensures
        spec_shift(d + d2, x, n, t) == shift_twice(d, d2, x, n, t),
{
}

/// Two shifts in the same direction make one: shifting by `d2` and then by
/// `d`, at one cutoff and for one name, is shifting by `d + d2`, and one
/// side is `None` exactly when the other is.
pub proof fn lemma_shift_twice(d: int, d2: int, x: Name, n: nat, t: Term)
    requires
        same_direction(d, d2),
    ensures
        spec_shift(d + d2, x, n, t) == shift_twice(d, d2, x, n, t),
    decreases t, 0nat,
{
    match t {
        Term::Var(_, _) => {
            lemma_shift_twice_var(d, d2, x, n, t);
        },
        Term::Lam(y, a, b) => {
            lemma_shift_twice(d, d2, x, n, *a);
            lemma_shift_twice(d, d2, x, crate::var::under(x, n, y), *b);
            lemma_shift_twice_binder(d, d2, x, n, t, y, *a, *b);
        },
        Term::Pi(y, a, b) => {
            lemma_shift_twice(d, d2, x, n, *a);
            lemma_shift_twice(d, d2, x, crate::var::under(x, n, y), *b);
            lemma_shift_twice_binder(d, d2, x, n, t, y, *a, *b);
        },
        Term::Let(y, ot, v, b) => {
            lemma_shift_twice(d, d2, x, n, *v);
            lemma_shift_twice(d, d2, x, crate::var::under(x, n, y), *b);
            match ot {
                Some(t0) => {
                    lemma_shift_twice(d, d2, x, n, *t0);
                },
                None => {},
            }
            lemma_shift_twice_let(d, d2, x, n, t);
        },
        Term::App(f, a) => {
            lemma_shift_twice(d, d2, x, n, *f);
            lemma_shift_twice(d, d2, x, n, *a);
            lemma_shift_twice_two(d, d2, x, n, t, *f, *a);
        },
        Term::Annot(a, b) => {
            lemma_shift_twice(d, d2, x, n, *a);
            lemma_shift_twice(d, d2, x, n, *b);
            lemma_shift_twice_two(d, d2, x, n, t, *a, *b);
        },
        Term::Assert(a) => {
            lemma_shift_twice(d, d2, x, n, *a);
            lemma_shift_twice_one(d, d2, x, n, t, *a);
        },
        Term::BinOp(o, l, r) => {
            lemma_shift_twice(d, d2, x, n, *l);
            lemma_shift_twice(d, d2, x, n, *r);
            lemma_shift_twice_two(d, d2, x, n, t, *l, *r);
        },
        Term::BoolIf(c, a, b) => {
            lemma_shift_twice(d, d2, x, n, *c);
            lemma_shift_twice(d, d2, x, n, *a);
            lemma_shift_twice(d, d2, x, n, *b);
            lemma_shift_twice_if(d, d2, x, n, t);
        },
        Term::EmptyListLit(a) => {
            lemma_shift_twice(d, d2, x, n, *a);
            lemma_shift_twice_one(d, d2, x, n, t, *a);
        },
        Term::NEListLit(a, rest) => {
            lemma_shift_twice(d, d2, x, n, *a);
            lemma_shift_twice_terms(d, d2, x, n, rest, rest.len());
            lemma_shift_twice_list(d, d2, x, n, t);
        },
        Term::SomeLit(a) => {
            lemma_shift_twice(d, d2, x, n, *a);
            lemma_shift_twice_one(d, d2, x, n, t, *a);
        },
        Term::TextLit(fs, _) => {
            lemma_shift_twice_fields(d, d2, x, n, fs, fs.len());
            lemma_shift_twice_record(d, d2, x, n, t);
        },
        Term::RecordType(fs) => {
            lemma_shift_twice_fields(d, d2, x, n, fs, fs.len());
            lemma_shift_twice_record(d, d2, x, n, t);
        },
        Term::RecordLit(fs) => {
            lemma_shift_twice_fields(d, d2, x, n, fs, fs.len());
            lemma_shift_twice_record(d, d2, x, n, t);
        },
        Term::UnionType(fs) => {
            lemma_shift_twice_alts(d, d2, x, n, fs, fs.len());
            lemma_shift_twice_record(d, d2, x, n, t);
        },
        Term::Merge(r, u, ot) => {
            lemma_shift_twice(d, d2, x, n, *r);
            lemma_shift_twice(d, d2, x, n, *u);
            match ot {
                Some(t0) => {
                    lemma_shift_twice(d, d2, x, n, *t0);
                },
                None => {},
            }
            lemma_shift_twice_merge(d, d2, x, n, t);
        },
        Term::Field(r, l) => {
            lemma_shift_twice(d, d2, x, n, *r);
            lemma_shift_twice_one(d, d2, x, n, t, *r);
        },
        Term::Projection(r, ls) => {
            lemma_shift_twice(d, d2, x, n, *r);
            lemma_shift_twice_one(d, d2, x, n, t, *r);
        },
        _ => {},
    }
}

} // verus!
