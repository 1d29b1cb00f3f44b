//! The direct sub-expressions of an expression, and what a function on
//! them makes of the expression.

use vstd::prelude::*;
use crate::syntax::{
    alternatives_of, clone_expr, clone_names, fields_of, opt_term_of, terms_of, Alternatives, Expr,
    Fields, Term,
};

verus! {

/// The terms of a list of labelled terms.
pub open spec fn field_terms(fs: Fields) -> Seq<Term> {
    Seq::new(fs.len(), |i: int| fs[i].1)
}

/// The list `fs` with the terms `cs` in place of its own.
pub open spec fn fields_with(fs: Fields, cs: Seq<Term>) -> Fields {
    Seq::new(fs.len(), |i: int| (fs[i].0, cs[i]))
}

/// The terms that the first `k` alternatives hold.
pub open spec fn alternative_terms(fs: Alternatives, k: nat) -> Seq<Term>
    decreases k,
{
    if k == 0 || k > fs.len() {
        Seq::empty()
    } else {
        let done = alternative_terms(fs, (k - 1) as nat);
        match fs[k - 1].1 {
            Some(t) => done.push(t),
            None => done,
        }
    }
}

/// The first `k` alternatives with the terms `cs`, one after the other, in
/// place of those that they hold.
pub open spec fn alternatives_with(fs: Alternatives, cs: Seq<Term>, k: nat) -> Alternatives
    decreases k,
{
    if k == 0 || k > fs.len() {
        Seq::empty()
    } else {
        let done = alternatives_with(fs, cs, (k - 1) as nat);
        match fs[k - 1].1 {
            Some(_) => done.push(
                (fs[k - 1].0, Some(cs[alternative_terms(fs, (k - 1) as nat).len() as int])),
            ),
            None => done.push((fs[k - 1].0, None)),
        }
    }
}

/// The direct sub-expressions of `t`, in source order.
pub open spec fn spec_children(t: Term) -> Seq<Term> {
    match t {
        Term::Lam(_, a, b) => seq![*a, *b],
        Term::Pi(_, a, b) => seq![*a, *b],
        Term::App(f, a) => seq![*f, *a],
        Term::Let(_, ot, v, b) => match ot {
            Some(t0) => seq![*t0, *v, *b],
            None => seq![*v, *b],
        },
        Term::Annot(a, b) => seq![*a, *b],
        Term::Assert(a) => seq![*a],
        Term::TextLit(chunks, _) => field_terms(chunks),
        Term::BinOp(_, l, r) => seq![*l, *r],
        Term::BoolIf(c, a, b) => seq![*c, *a, *b],
        Term::EmptyListLit(a) => seq![*a],
        Term::NEListLit(a, rest) => seq![*a] + rest,
        Term::SomeLit(a) => seq![*a],
        Term::RecordType(fs) => field_terms(fs),
        Term::RecordLit(fs) => field_terms(fs),
        Term::UnionType(fs) => alternative_terms(fs, fs.len()),
        Term::Merge(r, u, ot) => match ot {
            Some(t0) => seq![*r, *u, *t0],
            None => seq![*r, *u],
        },
        Term::Field(r, _) => seq![*r],
        Term::Projection(r, _) => seq![*r],
        _ => Seq::empty(),
    }
}

/// The expression `t` with the terms `cs` in place of its direct
/// sub-expressions; `None` where `cs` is not as many as they are.
pub open spec fn spec_with_children(t: Term, cs: Seq<Term>) -> Option<Term> {
    if cs.len() != spec_children(t).len() {
        None
    } else {
        Some(
            match t {
                Term::Lam(x, _, _) => Term::Lam(x, Box::new(cs[0]), Box::new(cs[1])),
                Term::Pi(x, _, _) => Term::Pi(x, Box::new(cs[0]), Box::new(cs[1])),
                Term::App(_, _) => Term::App(Box::new(cs[0]), Box::new(cs[1])),
                Term::Let(x, ot, _, _) => match ot {
                    Some(_) => Term::Let(
                        x,
                        Some(Box::new(cs[0])),
                        Box::new(cs[1]),
                        Box::new(cs[2]),
                    ),
                    None => Term::Let(x, None, Box::new(cs[0]), Box::new(cs[1])),
                },
                Term::Annot(_, _) => Term::Annot(Box::new(cs[0]), Box::new(cs[1])),
                Term::Assert(_) => Term::Assert(Box::new(cs[0])),
                Term::TextLit(chunks, tail) => Term::TextLit(fields_with(chunks, cs), tail),
                Term::BinOp(o, _, _) => Term::BinOp(o, Box::new(cs[0]), Box::new(cs[1])),
                Term::BoolIf(_, _, _) => Term::BoolIf(
                    Box::new(cs[0]),
                    Box::new(cs[1]),
                    Box::new(cs[2]),
                ),
                Term::EmptyListLit(_) => Term::EmptyListLit(Box::new(cs[0])),
                Term::NEListLit(_, _) => Term::NEListLit(Box::new(cs[0]), cs.skip(1)),
                Term::SomeLit(_) => Term::SomeLit(Box::new(cs[0])),
                Term::RecordType(fs) => Term::RecordType(fields_with(fs, cs)),
                Term::RecordLit(fs) => Term::RecordLit(fields_with(fs, cs)),
                Term::UnionType(fs) => Term::UnionType(alternatives_with(fs, cs, fs.len())),
                Term::Merge(_, _, ot) => match ot {
                    Some(_) => Term::Merge(
                        Box::new(cs[0]),
                        Box::new(cs[1]),
                        Some(Box::new(cs[2])),
                    ),
                    None => Term::Merge(Box::new(cs[0]), Box::new(cs[1]), None),
                },
                Term::Field(_, l) => Term::Field(Box::new(cs[0]), l),
                Term::Projection(_, ls) => Term::Projection(Box::new(cs[0]), ls),
                _ => t,
            },
        )
    }
}

fn one(a: &Expr) -> (r: Vec<Expr>)
    ensures
        terms_of(r) == seq![a@],
{
    let mut out: Vec<Expr> = Vec::new();
    out.push(clone_expr(a));
    assert(terms_of(out) =~= seq![a@]);
    out
}

fn two(a: &Expr, b: &Expr) -> (r: Vec<Expr>)
    ensures
        terms_of(r) == seq![a@, b@],
{
    let mut out: Vec<Expr> = Vec::new();
    out.push(clone_expr(a));
    out.push(clone_expr(b));
    assert(terms_of(out) =~= seq![a@, b@]);
    out
}

fn three(a: &Expr, b: &Expr, c: &Expr) -> (r: Vec<Expr>)
    ensures
        terms_of(r) == seq![a@, b@, c@],
{
    let mut out: Vec<Expr> = Vec::new();
    out.push(clone_expr(a));
    out.push(clone_expr(b));
    out.push(clone_expr(c));
    assert(terms_of(out) =~= seq![a@, b@, c@]);
    out
}

fn of_fields(fs: &Vec<(String, Expr)>) -> (r: Vec<Expr>)
    ensures
        terms_of(r) == field_terms(fields_of(*fs)),
{
    let mut out: Vec<Expr> = Vec::new();
    let mut i: usize = 0;
    while i < fs.len()
        invariant
            i <= fs.len(),
            out.len() == i,
            forall|j: int| 0 <= j < i ==> out[j]@ == fs[j].1@,
        decreases fs.len() - i,
    {
        out.push(clone_expr(&fs[i].1));
        i += 1;
    }
    assert(terms_of(out) =~= field_terms(fields_of(*fs)));
    out
}

fn of_list(a: &Expr, rest: &Vec<Expr>) -> (r: Vec<Expr>)
    ensures
        terms_of(r) == seq![a@] + terms_of(*rest),
{
    let mut out: Vec<Expr> = Vec::new();
    out.push(clone_expr(a));
    let mut i: usize = 0;
    while i < rest.len()
        invariant
            i <= rest.len(),
            out.len() == i + 1,
            out[0]@ == a@,
            forall|j: int| 0 <= j < i ==> out[j + 1]@ == rest[j]@,
        decreases rest.len() - i,
    {
        out.push(clone_expr(&rest[i]));
        i += 1;
    }
    assert(terms_of(out) =~= seq![a@] + terms_of(*rest));
    out
}

fn of_alternatives(fs: &Vec<(String, Option<Expr>)>) -> (r: Vec<Expr>)
    ensures
        terms_of(r) == alternative_terms(alternatives_of(*fs), fs.len() as nat),
{
    let mut out: Vec<Expr> = Vec::new();
    assert(terms_of(out) =~= Seq::empty());
    let mut i: usize = 0;
    while i < fs.len()
        invariant
            i <= fs.len(),
            terms_of(out) == alternative_terms(alternatives_of(*fs), i as nat),
        decreases fs.len() - i,
    {
        match &fs[i].1 {
            Some(t) => {
                let ghost prev = terms_of(out);
                out.push(clone_expr(t));
                assert(terms_of(out) =~= prev.push(t@));
            },
            None => {},
        }
        i += 1;
    }
    out
}

/// Copies of the direct sub-expressions of `e`, in source order.
pub fn children(e: &Expr) -> (r: Vec<Expr>)
    ensures
        terms_of(r) == spec_children(e@),
{
    match e {
        Expr::Lam(_, a, b) => two(a, b),
        Expr::Pi(_, a, b) => two(a, b),
        Expr::App(f, a) => two(f, a),
        Expr::Let(_, ot, v, b) => match ot {
            Some(t0) => three(t0, v, b),
            None => two(v, b),
        },
        Expr::Annot(a, b) => two(a, b),
        Expr::Assert(a) => one(a),
        Expr::TextLit(chunks, _) => of_fields(chunks),
        Expr::BinOp(_, l, r) => two(l, r),
        Expr::BoolIf(c, a, b) => three(c, a, b),
        Expr::EmptyListLit(a) => one(a),
        Expr::NEListLit(a, rest) => of_list(a, rest),
        Expr::SomeLit(a) => one(a),
        Expr::RecordType(fs) => of_fields(fs),
        Expr::RecordLit(fs) => of_fields(fs),
        Expr::UnionType(fs) => of_alternatives(fs),
        Expr::Merge(r, u, ot) => match ot {
            Some(t0) => three(r, u, t0),
            None => two(r, u),
        },
        Expr::Field(r, _) => one(r),
        Expr::Projection(r, _) => one(r),
        _ => {
            let out: Vec<Expr> = Vec::new();
            assert(terms_of(out) =~= Seq::empty());
            out
        },
    }
}

fn boxed(cs: &Vec<Expr>, i: usize) -> (r: Box<Expr>)
    requires
        i < cs.len(),
    ensures
        r@ == terms_of(*cs)[i as int],
{
    Box::new(clone_expr(&cs[i]))
}

fn to_fields(fs: &Vec<(String, Expr)>, cs: &Vec<Expr>) -> (r: Vec<(String, Expr)>)
    requires
        cs.len() == fs.len(),
    ensures
        fields_of(r) == fields_with(fields_of(*fs), terms_of(*cs)),
{
    let mut out: Vec<(String, Expr)> = Vec::new();
    let mut i: usize = 0;
    while i < fs.len()
        invariant
            i <= fs.len(),
            cs.len() == fs.len(),
            out.len() == i,
            forall|j: int|
                0 <= j < i ==> (#[trigger] out[j]).0@ == fs[j].0@ && out[j].1@ == cs[j]@,
        decreases fs.len() - i,
    {
        out.push((fs[i].0.clone(), clone_expr(&cs[i])));
        i += 1;
    }
    assert(fields_of(out) =~= fields_with(fields_of(*fs), terms_of(*cs)));
    out
}

fn to_rest(cs: &Vec<Expr>) -> (r: Vec<Expr>)
    requires
        cs.len() >= 1,
    ensures
        terms_of(r) == terms_of(*cs).skip(1),
{
    let mut out: Vec<Expr> = Vec::new();
    let mut i: usize = 1;
    while i < cs.len()
        invariant
            1 <= i <= cs.len(),
            out.len() == i - 1,
            forall|j: int| 0 <= j < out.len() ==> out[j]@ == cs[j + 1]@,
        decreases cs.len() - i,
    {
        out.push(clone_expr(&cs[i]));
        i += 1;
    }
    assert(terms_of(out) =~= terms_of(*cs).skip(1));
    out
}

proof fn lemma_alternative_terms_grow(fs: Alternatives, k: nat, n: nat)
    requires
        k <= n <= fs.len(),
    ensures
        alternative_terms(fs, k).len() <= alternative_terms(fs, n).len(),
    decreases n,
{
    if k < n {
        lemma_alternative_terms_grow(fs, k, (n - 1) as nat);
    }
}

fn to_alternatives(fs: &Vec<(String, Option<Expr>)>, cs: &Vec<Expr>) -> (r: Vec<
    (String, Option<Expr>),
>)
    requires
        cs.len() == alternative_terms(alternatives_of(*fs), fs.len() as nat).len(),
    ensures
        alternatives_of(r) == alternatives_with(
            alternatives_of(*fs),
            terms_of(*cs),
            fs.len() as nat,
        ),
{
    let mut out: Vec<(String, Option<Expr>)> = Vec::new();
    assert(alternatives_of(out) =~= Seq::empty());
    let mut used: usize = 0;
    let mut i: usize = 0;
    while i < fs.len()
        invariant
            i <= fs.len(),
            cs.len() == alternative_terms(alternatives_of(*fs), fs.len() as nat).len(),
            used == alternative_terms(alternatives_of(*fs), i as nat).len(),
            alternatives_of(out) == alternatives_with(
                alternatives_of(*fs),
                terms_of(*cs),
                i as nat,
            ),
        decreases fs.len() - i,
    {
        let ghost prev = alternatives_of(out);
        match &fs[i].1 {
            Some(_) => {
                proof {
                    lemma_alternative_terms_grow(
                        alternatives_of(*fs),
                        (i + 1) as nat,
                        fs.len() as nat,
                    );
                }
                out.push((fs[i].0.clone(), Some(clone_expr(&cs[used]))));
                assert(alternatives_of(out) =~= prev.push((fs[i as int].0@, Some(cs[used as int]@))));
                used += 1;
            },
            None => {
                out.push((fs[i].0.clone(), None));
                assert(alternatives_of(out) =~= prev.push((fs[i as int].0@, None)));
            },
        }
        i += 1;
    }
    out
}

/// The expression `e` with copies of `cs` in place of its direct
/// sub-expressions.
pub fn with_children(e: &Expr, cs: &Vec<Expr>) -> (r: Option<Expr>)
    ensures
        opt_term_of(r) == spec_with_children(e@, terms_of(*cs)),
{
    let own = children(e);
    if cs.len() != own.len() {
        return None;
    }
    proof {
        match e {
            Expr::TextLit(fs, _) | Expr::RecordType(fs) | Expr::RecordLit(fs) => {
                assert(fields_of(*fs).len() == fs.len());
            },
            Expr::NEListLit(_, rest) => {
                assert(terms_of(*rest).len() == rest.len());
            },
            _ => {},
        }
    }
    Some(
        match e {
            Expr::Lam(x, _, _) => Expr::Lam(x.clone(), boxed(cs, 0), boxed(cs, 1)),
            Expr::Pi(x, _, _) => Expr::Pi(x.clone(), boxed(cs, 0), boxed(cs, 1)),
            Expr::App(_, _) => Expr::App(boxed(cs, 0), boxed(cs, 1)),
            Expr::Let(x, ot, _, _) => match ot {
                Some(_) => Expr::Let(x.clone(), Some(boxed(cs, 0)), boxed(cs, 1), boxed(cs, 2)),
                None => Expr::Let(x.clone(), None, boxed(cs, 0), boxed(cs, 1)),
            },
            Expr::Annot(_, _) => Expr::Annot(boxed(cs, 0), boxed(cs, 1)),
            Expr::Assert(_) => Expr::Assert(boxed(cs, 0)),
            Expr::TextLit(chunks, tail) => Expr::TextLit(to_fields(chunks, cs), tail.clone()),
            Expr::BinOp(o, _, _) => Expr::BinOp(*o, boxed(cs, 0), boxed(cs, 1)),
            Expr::BoolIf(_, _, _) => Expr::BoolIf(boxed(cs, 0), boxed(cs, 1), boxed(cs, 2)),
            Expr::EmptyListLit(_) => Expr::EmptyListLit(boxed(cs, 0)),
            Expr::NEListLit(_, _) => Expr::NEListLit(boxed(cs, 0), to_rest(cs)),
            Expr::SomeLit(_) => Expr::SomeLit(boxed(cs, 0)),
            Expr::RecordType(fs) => Expr::RecordType(to_fields(fs, cs)),
            Expr::RecordLit(fs) => Expr::RecordLit(to_fields(fs, cs)),
            Expr::UnionType(fs) => Expr::UnionType(to_alternatives(fs, cs)),
            Expr::Merge(_, _, ot) => match ot {
                Some(_) => Expr::Merge(boxed(cs, 0), boxed(cs, 1), Some(boxed(cs, 2))),
                None => Expr::Merge(boxed(cs, 0), boxed(cs, 1), None),
            },
            Expr::Field(_, l) => Expr::Field(boxed(cs, 0), l.clone()),
            Expr::Projection(_, ls) => Expr::Projection(boxed(cs, 0), clone_names(ls)),
            _ => clone_expr(e),
        },
    )
}

/// The term `c2` is what `f` may give for the term `c`.
pub open spec fn image<F: Fn(&Expr) -> Expr>(f: F, c: Term, c2: Term) -> bool {
    exists|x: Expr, y: Expr| x@ == c && y@ == c2 && f.ensures((&x,), y)
}

/// `v` is `t` with the terms `cs`, which `f` gave, in place of its direct
/// sub-expressions.
pub open spec fn mapped<F: Fn(&Expr) -> Expr>(f: F, t: Term, cs: Seq<Term>, v: Term) -> bool {
    spec_with_children(t, cs) == Some(v) && forall|i: int|
        0 <= i < cs.len() ==> image(f, spec_children(t)[i], #[trigger] cs[i])
}

/// The expression `e` with each of its direct sub-expressions replaced by
/// what `f` gives for it. The sub-expressions are taken in source order.
pub fn map_children<F: Fn(&Expr) -> Expr>(e: &Expr, f: &F) -> (r: Expr)
    requires
        forall|c: &Expr| f.requires((c,)),
    ensures
        exists|cs: Seq<Term>| #[trigger] mapped(*f, e@, cs, r@),
{
    let own = children(e);
    let mut out: Vec<Expr> = Vec::new();
    let mut i: usize = 0;
    while i < own.len()
        invariant
            i <= own.len(),
            out.len() == i,
            forall|c: &Expr| f.requires((c,)),
            forall|j: int| 0 <= j < i ==> image(*f, own[j]@, #[trigger] out[j]@),
        decreases own.len() - i,
    {
        let c2 = f(&own[i]);
        assert(image(*f, own[i as int]@, c2@));
        out.push(c2);
        i += 1;
    }
    let r = with_children(e, &out);
    proof {
        let cs = terms_of(out);
        assert(cs.len() == spec_children(e@).len());
        assert forall|i: int| 0 <= i < cs.len() implies image(
            *f,
            spec_children(e@)[i],
            #[trigger] cs[i],
        ) by {
            assert(image(*f, own[i]@, out[i]@));
            assert(terms_of(own)[i] == own[i]@);
        }
        assert(mapped(*f, e@, cs, r->Some_0@));
    }
    match r {
        Some(r) => r,
        None => clone_expr(e),
    }
}

/// The term `c2`, or the failure `c2`, is what `f` may give for the term
/// `c`.
pub open spec fn outcome<E, F: Fn(&Expr) -> Result<Expr, E>>(
    f: F,
    c: Term,
    c2: Result<Term, E>,
) -> bool {
    exists|x: Expr, y: Result<Expr, E>|
        x@ == c && f.ensures((&x,), y) && match (y, c2) {
            (Ok(a), Ok(b)) => a@ == b,
            (Err(a), Err(b)) => a == b,
            _ => false,
        }
}

/// `v` is `t` with the terms `cs`, which `f` gave, in place of its direct
/// sub-expressions.
pub open spec fn traversed<E, F: Fn(&Expr) -> Result<Expr, E>>(
    f: F,
    t: Term,
    cs: Seq<Term>,
    v: Term,
) -> bool {
    spec_with_children(t, cs) == Some(v) && forall|i: int|
        0 <= i < cs.len() ==> outcome(f, spec_children(t)[i], Ok(#[trigger] cs[i]))
}

/// `f` gave the terms `cs` for the first `k` direct sub-expressions of
/// `t`, and the failure `err` for the next.
pub open spec fn stopped<E, F: Fn(&Expr) -> Result<Expr, E>>(
    f: F,
    t: Term,
    k: int,
    cs: Seq<Term>,
    err: E,
) -> bool {
    0 <= k < spec_children(t).len() && cs.len() == k && outcome(f, spec_children(t)[k], Err(err))
        && forall|i: int| 0 <= i < k ==> outcome(f, spec_children(t)[i], Ok(#[trigger] cs[i]))
}

/// As `map_children`, for a function that may fail: its first failure, in
/// source order, is the result, and what comes after it is not looked
/// at.
pub fn traverse_children<E, F: Fn(&Expr) -> Result<Expr, E>>(e: &Expr, f: &F) -> (r: Result<
    Expr,
    E,
>)
    requires
        forall|c: &Expr| f.requires((c,)),
    ensures
        match r {
            Ok(v) => exists|cs: Seq<Term>| #[trigger] traversed(*f, e@, cs, v@),
            Err(err) => exists|k: int, cs: Seq<Term>| #[trigger] stopped(*f, e@, k, cs, err),
        },
{
    let own = children(e);
    let mut out: Vec<Expr> = Vec::new();
    let mut i: usize = 0;
    while i < own.len()
        invariant
            i <= own.len(),
            out.len() == i,
            terms_of(own) == spec_children(e@),
            forall|c: &Expr| f.requires((c,)),
            forall|j: int| 0 <= j < i ==> outcome(*f, own[j]@, Ok(#[trigger] out[j]@)),
        decreases own.len() - i,
    {
        match f(&own[i]) {
            Ok(c2) => {
                assert(outcome(*f, own[i as int]@, Ok(c2@))) by {
                    assert(f.ensures((&own[i as int],), Ok(c2)));
                }
                out.push(c2);
            },
            Err(err) => {
                proof {
                    let cs = terms_of(out);
                    assert(outcome(*f, own[i as int]@, Err(err))) by {
                        assert(f.ensures((&own[i as int],), Err(err)));
                    }
                    assert forall|j: int| 0 <= j < i implies outcome(
                        *f,
                        spec_children(e@)[j],
                        Ok(#[trigger] cs[j]),
                    ) by {
                        assert(outcome(*f, own[j]@, Ok(out[j]@)));
                        assert(terms_of(own)[j] == own[j]@);
                    }
                    assert(terms_of(own)[i as int] == own[i as int]@);
                    assert(stopped(*f, e@, i as int, cs, err));
                }
                return Err(err);
            },
        }
        i += 1;
    }
    let r = with_children(e, &out);
    proof {
        let cs = terms_of(out);
        assert forall|i: int| 0 <= i < cs.len() implies outcome(
            *f,
            spec_children(e@)[i],
            Ok(#[trigger] cs[i]),
        ) by {
            assert(outcome(*f, own[i]@, Ok(out[i]@)));
            assert(terms_of(own)[i] == own[i]@);
        }
        assert(traversed(*f, e@, cs, r->Some_0@));
    }
    match r {
        Some(r) => Ok(r),
        None => Ok(clone_expr(e)),
    }
}

proof fn lemma_alternative_terms_prefix(fs: Alternatives, k: nat, n: nat, j: int)
    requires
        k <= n <= fs.len(),
        0 <= j < alternative_terms(fs, k).len(),
    ensures
        j < alternative_terms(fs, n).len(),
        alternative_terms(fs, n)[j] == alternative_terms(fs, k)[j],
    decreases n,
{
    if k < n {
        lemma_alternative_terms_prefix(fs, k, (n - 1) as nat, j);
    }
}

proof fn lemma_alternatives_back(fs: Alternatives, k: nat)
    requires
        k <= fs.len(),
    ensures
        alternatives_with(fs, alternative_terms(fs, fs.len()), k) == fs.take(k as int),
    decreases k,
{
    if k > 0 {
        lemma_alternatives_back(fs, (k - 1) as nat);
        match fs[k - 1].1 {
            Some(t) => {
                let j = alternative_terms(fs, (k - 1) as nat).len() as int;
                lemma_alternative_terms_prefix(fs, k, fs.len(), j);
            },
            None => {},
        }
        assert(fs.take(k as int) =~= fs.take(k - 1).push(fs[k - 1]));
    } else {
        assert(fs.take(0) =~= Seq::empty());
    }
}

/// Putting its own sub-expressions back changes nothing.
pub proof fn lemma_children_back(t: Term)
    ensures
        spec_with_children(t, spec_children(t)) == Some(t),
{
    match t {
        Term::TextLit(fs, _) => {
            assert(fields_with(fs, field_terms(fs)) =~= fs);
        },
        Term::RecordType(fs) => {
            assert(fields_with(fs, field_terms(fs)) =~= fs);
        },
        Term::RecordLit(fs) => {
            assert(fields_with(fs, field_terms(fs)) =~= fs);
        },
        Term::NEListLit(a, rest) => {
            assert((seq![*a] + rest).skip(1) =~= rest);
        },
        Term::UnionType(fs) => {
            lemma_alternatives_back(fs, fs.len());
            assert(fs.take(fs.len() as int) =~= fs);
        },
        _ => {},
    }
}

} // verus!
