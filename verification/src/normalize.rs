//! Reduction to weak head normal form, and to normal form.
//!
//! Reduction is bounded: every function takes a budget, the greatest depth
//! to which it may call itself, and gives `None` when the budget is spent.
//! It also gives `None` where a variable index or a natural number would
//! leave the machine's range. An expression in weak head normal form has
//! no redex at its head: it is a function, a type, a literal, a record, a
//! built-in with the arguments it has so far, or a stuck elimination.
//!
//! Doubles are held by their bits and never computed with, so
//! `Double/show` and `Integer/toDouble` have no rule here: an application
//! of one of them stays as it is.

use vstd::prelude::*;
use vstd::string::*;
use crate::record::{
    find_field, index_of, merge_fields, project, spec_merge_fields, spec_project, MergeMode,
};
use crate::syntax::{
    alternatives_of, clone_expr, clone_fields, clone_names, clone_opt_box, clone_terms, fields_of,
    names_of, opt_box_term_of, term_of, terms_of, Alternatives, BinOp, Builtin, Expr, Fields, Name,
    Term, V,
};
use crate::var::{shift, spec_shift, spec_subst_shift, subst_shift};

verus! {

/// The application of `f` to `a`.
pub open spec fn app(f: Term, a: Term) -> Term {
    Term::App(Box::new(f), Box::new(a))
}

/// `List t`.
pub open spec fn list_of(t: Term) -> Term {
    app(Term::Builtin(Builtin::List), t)
}

/// `Optional t`.
pub open spec fn optional_of(t: Term) -> Term {
    app(Term::Builtin(Builtin::Optional), t)
}

/// `λ(x : Natural) → x + 1`
pub open spec fn succ_fn() -> Term {
    Term::Lam(
        "x"@,
        Box::new(Term::Builtin(Builtin::Natural)),
        Box::new(
            Term::BinOp(
                BinOp::NaturalPlus,
                Box::new(Term::Var("x"@, 0)),
                Box::new(Term::NaturalLit(1)),
            ),
        ),
    )
}

/// `λ(a : t) → λ(as : List t') → [a] # as`, where `t'` is `t` under the
/// binder of `a`.
pub open spec fn cons_fn(t: Term, t_under: Term) -> Term {
    Term::Lam(
        "a"@,
        Box::new(t),
        Box::new(
            Term::Lam(
                "as"@,
                Box::new(list_of(t_under)),
                Box::new(
                    Term::BinOp(
                        BinOp::ListAppend,
                        Box::new(Term::NEListLit(Box::new(Term::Var("a"@, 0)), Seq::empty())),
                        Box::new(Term::Var("as"@, 0)),
                    ),
                ),
            ),
        ),
    )
}

/// `λ(a : t) → Some a`
pub open spec fn some_fn(t: Term) -> Term {
    Term::Lam("a"@, Box::new(t), Box::new(Term::SomeLit(Box::new(Term::Var("a"@, 0)))))
}

/// A built-in of five arguments, applied to them.
pub open spec fn fold_app(b: Builtin, t: Term, x: Term, ty: Term, g: Term, a: Term) -> Term {
    app(app(app(app(app(Term::Builtin(b), t), x), ty), g), a)
}

/// `Natural/fold n t s z`
pub open spec fn natural_fold_app(n: Term, t: Term, s: Term, z: Term) -> Term {
    app(app(app(app(Term::Builtin(Builtin::NaturalFold), n), t), s), z)
}

/// The list of the elements `ts`, of element type `t`.
pub open spec fn list_from(t: Term, ts: Seq<Term>) -> Term {
    if ts.len() == 0 {
        Term::EmptyListLit(Box::new(list_of(t)))
    } else {
        Term::NEListLit(Box::new(ts[0]), ts.skip(1))
    }
}

/// The character of the decimal digit `d`.
pub open spec fn digit_char(d: int) -> char {
    if d == 0 {
        '0'
    } else if d == 1 {
        '1'
    } else if d == 2 {
        '2'
    } else if d == 3 {
        '3'
    } else if d == 4 {
        '4'
    } else if d == 5 {
        '5'
    } else if d == 6 {
        '6'
    } else if d == 7 {
        '7'
    } else if d == 8 {
        '8'
    } else {
        '9'
    }
}

/// The natural number `n` in decimal digits, without leading zeros.
pub open spec fn natural_text(n: nat) -> Seq<char>
    decreases n,
{
    if n < 10 {
        seq![digit_char(n as int)]
    } else {
        natural_text(n / 10).push(digit_char((n % 10) as int))
    }
}

/// The integer `n` in decimal digits after its sign, which is always
/// there.
pub open spec fn integer_text(n: int) -> Seq<char> {
    if n < 0 {
        seq!['-'] + natural_text((-n) as nat)
    } else {
        seq!['+'] + natural_text(n as nat)
    }
}

/// The character of the hexadecimal digit `d`, in lower case.
pub open spec fn hex_digit_char(d: int) -> char {
    if d < 10 {
        digit_char(d)
    } else if d == 10 {
        'a'
    } else if d == 11 {
        'b'
    } else if d == 12 {
        'c'
    } else if d == 13 {
        'd'
    } else if d == 14 {
        'e'
    } else {
        'f'
    }
}

/// The character `c` as it stands in a text literal in source: quotes,
/// backslashes and control characters are escaped, and so is the dollar
/// sign, which would start an interpolation.
pub open spec fn escaped_char(c: char) -> Seq<char> {
    if c == '"' {
        seq!['\\', '"']
    } else if c == '$' {
        seq!['\\', 'u', '0', '0', '2', '4']
    } else if c == '\\' {
        seq!['\\', '\\']
    } else if c == '\u{8}' {
        seq!['\\', 'b']
    } else if c == '\u{c}' {
        seq!['\\', 'f']
    } else if c == '\n' {
        seq!['\\', 'n']
    } else if c == '\r' {
        seq!['\\', 'r']
    } else if c == '\t' {
        seq!['\\', 't']
    } else if (c as u32) < 0x20 {
        seq![
            '\\',
            'u',
            '0',
            '0',
            hex_digit_char((c as u32) as int / 16),
            hex_digit_char((c as u32) as int % 16),
        ]
    } else {
        seq![c]
    }
}

/// The first `k` characters of `s`, escaped.
pub open spec fn escaped_text(s: Seq<char>, k: nat) -> Seq<char>
    decreases k,
{
    if k == 0 || k > s.len() {
        Seq::empty()
    } else {
        escaped_text(s, (k - 1) as nat) + escaped_char(s[k - 1])
    }
}

/// The text `s` as a text literal in source: escaped, between quotes.
pub open spec fn text_show(s: Seq<char>) -> Seq<char> {
    seq!['"'] + escaped_text(s, s.len()) + seq!['"']
}

/// The text literal of the characters `s`.
pub open spec fn plain_text(s: Seq<char>) -> Term {
    Term::TextLit(Seq::empty(), s)
}

/// `{ index : Natural, value : t }`
pub open spec fn indexed_type(t: Term) -> Term {
    Term::RecordType(seq![("index"@, Term::Builtin(Builtin::Natural)), ("value"@, t)])
}

/// `{ index = i, value = v }`
pub open spec fn indexed_entry(i: nat, v: Term) -> Term {
    Term::RecordLit(seq![("index"@, Term::NaturalLit(i as u64)), ("value"@, v)])
}

/// What a built-in on one natural number gives for the literal `n`.
pub open spec fn spec_natural_fn(b: Builtin, n: u64) -> Option<Term> {
    match b {
        Builtin::NaturalIsZero => Some(Term::BoolLit(n == 0)),
        Builtin::NaturalEven => Some(Term::BoolLit(n % 2 == 0)),
        Builtin::NaturalOdd => Some(Term::BoolLit(n % 2 == 1)),
        Builtin::NaturalToInteger => if n <= i64::MAX {
            Some(Term::IntegerLit(n as i64))
        } else {
            None
        },
        Builtin::NaturalShow => Some(plain_text(natural_text(n as nat))),
        _ => None,
    }
}

/// The elements of the list that starts with `x` and goes on with `rest`,
/// last first.
pub open spec fn reversed(x: Term, rest: Seq<Term>) -> Seq<Term> {
    Seq::new(
        rest.len() + 1,
        |i: int|
            if i == rest.len() {
                x
            } else {
                rest[rest.len() - 1 - i]
            },
    )
}

/// What a built-in on one list gives for the list `w` in weak head normal
/// form, of element type `t`; `stuck` where `w` is no list literal.
pub open spec fn spec_list_fn(b: Builtin, t: Term, w: Term, stuck: Term) -> Option<Term> {
    match w {
        Term::EmptyListLit(_) => match b {
            Builtin::ListLength => Some(Term::NaturalLit(0)),
            Builtin::ListHead => Some(app(Term::Builtin(Builtin::OptionalNone), t)),
            Builtin::ListLast => Some(app(Term::Builtin(Builtin::OptionalNone), t)),
            Builtin::ListReverse => Some(w),
            Builtin::ListIndexed => Some(Term::EmptyListLit(Box::new(list_of(indexed_type(t))))),
            _ => Some(stuck),
        },
        Term::NEListLit(x, rest) => match b {
            Builtin::ListLength => if rest.len() < u64::MAX {
                Some(Term::NaturalLit((rest.len() + 1) as u64))
            } else {
                None
            },
            Builtin::ListHead => Some(Term::SomeLit(x)),
            Builtin::ListLast => Some(Term::SomeLit(Box::new(reversed(*x, rest)[0]))),
            Builtin::ListReverse => Some(
                Term::NEListLit(Box::new(reversed(*x, rest)[0]), reversed(*x, rest).skip(1)),
            ),
            Builtin::ListIndexed => Some(
                Term::NEListLit(
                    Box::new(indexed_entry(0, *x)),
                    Seq::new(rest.len(), |i: int| indexed_entry((i + 1) as nat, rest[i])),
                ),
            ),
            _ => Some(stuck),
        },
        _ => Some(stuck),
    }
}

/// The text literal `l ++ r`.
pub open spec fn spec_text_append(lc: Fields, lt: Name, rc: Fields, rt: Name) -> Term {
    if rc.len() == 0 {
        Term::TextLit(lc, lt + rt)
    } else {
        Term::TextLit(lc.push((lt + rc[0].0, rc[0].1)) + rc.skip(1), rt)
    }
}

/// The operator `o` on two operands in weak head normal form: folded where
/// both are literals that it applies to, and left standing otherwise.
/// `None` where a sum or a product leaves the range of a natural number.
pub open spec fn spec_binop(o: BinOp, l: Term, r: Term) -> Option<Term> {
    let stuck = Some(Term::BinOp(o, Box::new(l), Box::new(r)));
    match (o, l, r) {
        (BinOp::BoolAnd, Term::BoolLit(x), Term::BoolLit(y)) => Some(Term::BoolLit(x && y)),
        (BinOp::BoolOr, Term::BoolLit(x), Term::BoolLit(y)) => Some(Term::BoolLit(x || y)),
        (BinOp::BoolEQ, Term::BoolLit(x), Term::BoolLit(y)) => Some(Term::BoolLit(x == y)),
        (BinOp::BoolNE, Term::BoolLit(x), Term::BoolLit(y)) => Some(Term::BoolLit(x != y)),
        (BinOp::NaturalPlus, Term::NaturalLit(x), Term::NaturalLit(y)) => if x + y <= u64::MAX {
            Some(Term::NaturalLit((x + y) as u64))
        } else {
            None
        },
        (BinOp::NaturalTimes, Term::NaturalLit(x), Term::NaturalLit(y)) => if x * y <= u64::MAX {
            Some(Term::NaturalLit((x * y) as u64))
        } else {
            None
        },
        (BinOp::TextAppend, Term::TextLit(lc, lt), Term::TextLit(rc, rt)) => Some(
            spec_text_append(lc, lt, rc, rt),
        ),
        (BinOp::ListAppend, Term::EmptyListLit(_), Term::EmptyListLit(_)) => Some(l),
        (BinOp::ListAppend, Term::EmptyListLit(_), Term::NEListLit(_, _)) => Some(r),
        (BinOp::ListAppend, Term::NEListLit(_, _), Term::EmptyListLit(_)) => Some(l),
        (BinOp::ListAppend, Term::NEListLit(x, xs), Term::NEListLit(y, ys)) => Some(
            Term::NEListLit(x, xs.push(*y) + ys),
        ),
        (BinOp::RightBiasedRecordMerge, Term::RecordLit(a), Term::RecordLit(b)) => Some(
            Term::RecordLit(spec_merge_fields(MergeMode::Prefer, a, b)),
        ),
        (BinOp::RecursiveRecordMerge, Term::RecordLit(a), Term::RecordLit(b)) => Some(
            Term::RecordLit(spec_merge_fields(MergeMode::Combine, a, b)),
        ),
        (BinOp::RecursiveRecordTypeMerge, Term::RecordType(a), Term::RecordType(b)) => Some(
            Term::RecordType(spec_merge_fields(MergeMode::CombineTypes, a, b)),
        ),
        _ => stuck,
    }
}

/// A built-in applied to its one argument `a`.
pub open spec fn spec_builtin1(f: nat, b: Builtin, a: Term) -> Option<Term>
    decreases f, 1nat,
{
    match b {
        Builtin::NaturalIsZero | Builtin::NaturalEven | Builtin::NaturalOdd
        | Builtin::NaturalToInteger | Builtin::NaturalShow => match spec_whnf(f, a) {
            None => None,
            Some(Term::NaturalLit(n)) => spec_natural_fn(b, n),
            Some(_) => Some(app(Term::Builtin(b), a)),
        },
        Builtin::IntegerShow => match spec_whnf(f, a) {
            None => None,
            Some(Term::IntegerLit(n)) => Some(plain_text(integer_text(n as int))),
            Some(_) => Some(app(Term::Builtin(b), a)),
        },
        Builtin::TextShow => match spec_whnf(f, a) {
            None => None,
            Some(Term::TextLit(chunks, tail)) => if chunks.len() == 0 {
                Some(plain_text(text_show(tail)))
            } else {
                Some(app(Term::Builtin(b), a))
            },
            Some(_) => Some(app(Term::Builtin(b), a)),
        },
        Builtin::NaturalBuild => spec_whnf(
            f,
            app(app(app(a, Term::Builtin(Builtin::Natural)), succ_fn()), Term::NaturalLit(0)),
        ),
        _ => Some(app(Term::Builtin(b), a)),
    }
}

/// A built-in applied to `a1` and then to `a`.
pub open spec fn spec_builtin2(f: nat, b: Builtin, a1: Term, a: Term) -> Option<Term>
    decreases f, 1nat,
{
    let stuck = app(app(Term::Builtin(b), a1), a);
    match b {
        Builtin::NaturalSubtract => match (spec_whnf(f, a1), spec_whnf(f, a)) {
            (Some(Term::NaturalLit(m)), Some(Term::NaturalLit(n))) => Some(
                Term::NaturalLit(
                    if n >= m {
                        (n - m) as u64
                    } else {
                        0
                    },
                ),
            ),
            (Some(_), Some(_)) => Some(stuck),
            _ => None,
        },
        Builtin::ListLength | Builtin::ListHead | Builtin::ListLast | Builtin::ListReverse
        | Builtin::ListIndexed => match spec_whnf(f, a) {
            None => None,
            Some(w) => spec_list_fn(b, a1, w, stuck),
        },
        Builtin::ListBuild => match spec_shift(1, "a"@, 0, a1) {
            Some(a1s) => spec_whnf(
                f,
                app(
                    app(app(a, list_of(a1)), cons_fn(a1, a1s)),
                    Term::EmptyListLit(Box::new(list_of(a1))),
                ),
            ),
            None => None,
        },
        Builtin::OptionalBuild => spec_whnf(
            f,
            app(
                app(app(a, optional_of(a1)), some_fn(a1)),
                app(Term::Builtin(Builtin::OptionalNone), a1),
            ),
        ),
        _ => Some(stuck),
    }
}

/// `Natural/fold n t s z`: `z` where `n` is zero, and `s` applied to the
/// fold over the number before `n` where it is not.
pub open spec fn spec_natural_fold(f: nat, n: Term, t: Term, s: Term, z: Term) -> Option<Term>
    decreases f, 1nat,
{
    match spec_whnf(f, n) {
        None => None,
        Some(Term::NaturalLit(k)) => if k == 0 {
            spec_whnf(f, z)
        } else {
            spec_whnf(f, app(s, natural_fold_app(Term::NaturalLit((k - 1) as u64), t, s, z)))
        },
        Some(_) => Some(natural_fold_app(n, t, s, z)),
    }
}

/// `List/fold t x ty g a`: `a` where the list `x` is empty, and `g` on its
/// first element and the fold over the others where it is not.
pub open spec fn spec_list_fold(f: nat, t: Term, x: Term, ty: Term, g: Term, a: Term) -> Option<
    Term,
>
    decreases f, 1nat,
{
    match spec_whnf(f, x) {
        None => None,
        Some(Term::EmptyListLit(_)) => spec_whnf(f, a),
        Some(Term::NEListLit(h, rest)) => spec_whnf(
            f,
            app(app(g, *h), fold_app(Builtin::ListFold, t, list_from(t, rest), ty, g, a)),
        ),
        Some(_) => Some(fold_app(Builtin::ListFold, t, x, ty, g, a)),
    }
}

/// Whether `w` is `None t` for some `t`.
pub open spec fn is_none_of(w: Term) -> bool {
    w matches Term::App(n, _) && *n == Term::Builtin(Builtin::OptionalNone)
}

/// `Optional/fold t x ty g a`: `g` on what `x` holds, and `a` where it
/// holds nothing.
pub open spec fn spec_optional_fold(f: nat, t: Term, x: Term, ty: Term, g: Term, a: Term) -> Option<
    Term,
>
    decreases f, 1nat,
{
    match spec_whnf(f, x) {
        None => None,
        Some(Term::SomeLit(v)) => spec_whnf(f, app(g, *v)),
        Some(w) => if is_none_of(w) {
            spec_whnf(f, a)
        } else {
            Some(fold_app(Builtin::OptionalFold, t, x, ty, g, a))
        },
    }
}

/// A built-in applied to five arguments.
pub open spec fn spec_builtin5(f: nat, b: Builtin, t: Term, x: Term, ty: Term, g: Term, a: Term) -> Option<
    Term,
>
    decreases f, 2nat,
{
    match b {
        Builtin::ListFold => spec_list_fold(f, t, x, ty, g, a),
        Builtin::OptionalFold => spec_optional_fold(f, t, x, ty, g, a),
        _ => Some(fold_app(b, t, x, ty, g, a)),
    }
}

/// The application of `g`, in weak head normal form and no function, to
/// `a`: the rule of the built-in at the head of `g`, where it has one for
/// this many arguments.
pub open spec fn spec_apply_builtin(f: nat, g: Term, a: Term) -> Option<Term>
    decreases f, 3nat,
{
    match g {
        Term::Builtin(b) => spec_builtin1(f, b, a),
        Term::App(h1, a1) => match *h1 {
            Term::Builtin(b) => spec_builtin2(f, b, *a1, a),
            Term::App(h2, a2) => match *h2 {
                Term::App(h3, a3) => match *h3 {
                    Term::Builtin(Builtin::NaturalFold) => spec_natural_fold(f, *a3, *a2, *a1, a),
                    Term::App(h4, a4) => match *h4 {
                        Term::Builtin(b) => spec_builtin5(f, b, *a4, *a3, *a2, *a1, a),
                        _ => Some(app(g, a)),
                    },
                    _ => Some(app(g, a)),
                },
                _ => Some(app(g, a)),
            },
            _ => Some(app(g, a)),
        },
        _ => Some(app(g, a)),
    }
}

/// The application of `g` to `a`: the body with `a` in place of the
/// variable where `g` reduces to a function.
pub open spec fn spec_whnf_app(f: nat, g: Term, a: Term) -> Option<Term>
    decreases f, 4nat,
{
    match spec_whnf(f, g) {
        None => None,
        Some(Term::Lam(x, _, b)) => match spec_subst_shift(x, 0, a, *b) {
            Some(r) => spec_whnf(f, r),
            None => None,
        },
        Some(g2) => spec_apply_builtin(f, g2, a),
    }
}

/// `if c then a else b`
pub open spec fn spec_whnf_if(f: nat, c: Term, a: Term, b: Term) -> Option<Term>
    decreases f, 1nat,
{
    match spec_whnf(f, c) {
        None => None,
        Some(Term::BoolLit(v)) => if v {
            spec_whnf(f, a)
        } else {
            spec_whnf(f, b)
        },
        Some(c2) => Some(Term::BoolIf(Box::new(c2), Box::new(a), Box::new(b))),
    }
}

/// `r.l`
pub open spec fn spec_whnf_field(f: nat, r: Term, l: Name) -> Option<Term>
    decreases f, 1nat,
{
    match spec_whnf(f, r) {
        None => None,
        Some(Term::RecordLit(fs)) => match index_of(fs, l, 0) {
            Some(i) => spec_whnf(f, fs[i as int].1),
            None => Some(Term::Field(Box::new(Term::RecordLit(fs)), l)),
        },
        Some(r2) => Some(Term::Field(Box::new(r2), l)),
    }
}

/// `r.{ ls }`
pub open spec fn spec_whnf_projection(f: nat, r: Term, ls: Seq<Name>) -> Option<Term>
    decreases f, 1nat,
{
    match spec_whnf(f, r) {
        None => None,
        Some(Term::RecordLit(fs)) => match spec_project(fs, ls, ls.len()) {
            Some(fs2) => Some(Term::RecordLit(fs2)),
            None => Some(Term::Projection(Box::new(Term::RecordLit(fs)), ls)),
        },
        Some(r2) => Some(Term::Projection(Box::new(r2), ls)),
    }
}

/// `merge h u`: the handler of `h` for the alternative that `u` is built
/// with, applied to what the alternative holds.
pub open spec fn spec_whnf_merge(f: nat, h: Term, u: Term, ot: Option<Box<Term>>) -> Option<Term>
    decreases f, 1nat,
{
    match (spec_whnf(f, h), spec_whnf(f, u)) {
        (Some(h2), Some(u2)) => {
            let stuck = Some(Term::Merge(Box::new(h2), Box::new(u2), ot));
            match h2 {
                Term::RecordLit(hs) => match u2 {
                    Term::App(c, v) => match *c {
                        Term::Field(ut, k) => match index_of(hs, k, 0) {
                            Some(i) => if *ut is UnionType {
                                spec_whnf(f, app(hs[i as int].1, *v))
                            } else {
                                stuck
                            },
                            None => stuck,
                        },
                        _ => stuck,
                    },
                    Term::Field(ut, k) => match index_of(hs, k, 0) {
                        Some(i) => if *ut is UnionType {
                            spec_whnf(f, hs[i as int].1)
                        } else {
                            stuck
                        },
                        None => stuck,
                    },
                    _ => stuck,
                },
                _ => stuck,
            }
        },
        _ => None,
    }
}

/// The weak head normal form of `t`, found within the budget `fuel`.
///
/// Function applications, `let`, annotations, conditionals on a literal,
/// selections from a record literal, operators on literals, saturated
/// built-ins and `merge` on a built alternative are reduced at the head;
/// what is below the head is left as it is.
pub open spec fn spec_whnf(fuel: nat, t: Term) -> Option<Term>
    decreases fuel, 0nat,
{
    if fuel == 0 {
        None
    } else {
        let f = (fuel - 1) as nat;
        match t {
            Term::App(g, a) => spec_whnf_app(f, *g, *a),
            Term::Let(x, _, v, b) => match spec_subst_shift(x, 0, *v, *b) {
                Some(r) => spec_whnf(f, r),
                None => None,
            },
            Term::Annot(a, _) => spec_whnf(f, *a),
            Term::BoolIf(c, a, b) => spec_whnf_if(f, *c, *a, *b),
            Term::Field(r, l) => spec_whnf_field(f, *r, l),
            Term::Projection(r, ls) => spec_whnf_projection(f, *r, ls),
            Term::BinOp(o, l, r) => match (spec_whnf(f, *l), spec_whnf(f, *r)) {
                (Some(l2), Some(r2)) => spec_binop(o, l2, r2),
                _ => None,
            },
            Term::Merge(h, u, ot) => spec_whnf_merge(f, *h, *u, ot),
            _ => Some(t),
        }
    }
}

/// The executable result `r` is what the model gives.
pub open spec fn agrees(r: Option<Expr>, s: Option<Term>) -> bool {
    match r {
        Some(e) => s == Some(e@),
        None => s is None,
    }
}

/// A label from its text.
pub fn mk_name(s: &str) -> (r: String)
    ensures
        r@ == s@,
{
    String::from_str(s)
}

/// The variable `x@0`.
pub fn mk_var(s: &str) -> (r: Expr)
    ensures
        r@ == Term::Var(s@, 0),
{
    Expr::Var(V(mk_name(s), 0))
}

/// The application of `f` to `a`.
pub fn mk_app(f: Expr, a: Expr) -> (r: Expr)
    ensures
        r@ == app(f@, a@),
{
    Expr::App(Box::new(f), Box::new(a))
}

/// `List t`
pub fn mk_list_of(t: Expr) -> (r: Expr)
    ensures
        r@ == list_of(t@),
{
    mk_app(Expr::Builtin(Builtin::List), t)
}

/// `Optional t`
pub fn mk_optional_of(t: Expr) -> (r: Expr)
    ensures
        r@ == optional_of(t@),
{
    mk_app(Expr::Builtin(Builtin::Optional), t)
}

fn mk_succ_fn() -> (r: Expr)
    ensures
        r@ == succ_fn(),
{
    reveal_with_fuel(term_of, 3);
    Expr::Lam(
        mk_name("x"),
        Box::new(Expr::Builtin(Builtin::Natural)),
        Box::new(
            Expr::BinOp(BinOp::NaturalPlus, Box::new(mk_var("x")), Box::new(Expr::NaturalLit(1))),
        ),
    )
}

fn mk_cons_fn(t: Expr, t_under: Expr) -> (r: Expr)
    ensures
        r@ == cons_fn(t@, t_under@),
{
    reveal_with_fuel(term_of, 4);
    let none: Vec<Expr> = Vec::new();
    assert(terms_of(none) =~= Seq::<Term>::empty());
    let single = Expr::NEListLit(Box::new(mk_var("a")), none);
    Expr::Lam(
        mk_name("a"),
        Box::new(t),
        Box::new(
            Expr::Lam(
                mk_name("as"),
                Box::new(mk_list_of(t_under)),
                Box::new(Expr::BinOp(BinOp::ListAppend, Box::new(single), Box::new(mk_var("as")))),
            ),
        ),
    )
}

fn mk_some_fn(t: Expr) -> (r: Expr)
    ensures
        r@ == some_fn(t@),
{
    reveal_with_fuel(term_of, 3);
    Expr::Lam(mk_name("a"), Box::new(t), Box::new(Expr::SomeLit(Box::new(mk_var("a")))))
}

fn mk_fold_app(b: Builtin, t: &Expr, x: Expr, ty: &Expr, g: &Expr, a: &Expr) -> (r: Expr)
    ensures
        r@ == fold_app(b, t@, x@, ty@, g@, a@),
{
    mk_app(
        mk_app(
            mk_app(mk_app(mk_app(Expr::Builtin(b), clone_expr(t)), x), clone_expr(ty)),
            clone_expr(g),
        ),
        clone_expr(a),
    )
}

fn mk_natural_fold_app(n: Expr, t: &Expr, s: &Expr, z: &Expr) -> (r: Expr)
    ensures
        r@ == natural_fold_app(n@, t@, s@, z@),
{
    mk_app(
        mk_app(mk_app(mk_app(Expr::Builtin(Builtin::NaturalFold), n), clone_expr(t)), clone_expr(s)),
        clone_expr(z),
    )
}

fn mk_list_from(t: &Expr, ts: &Vec<Expr>) -> (r: Expr)
    ensures
        r@ == list_from(t@, terms_of(*ts)),
{
    if ts.len() == 0 {
        Expr::EmptyListLit(Box::new(mk_list_of(clone_expr(t))))
    } else {
        let mut out: Vec<Expr> = Vec::new();
        let mut i: usize = 1;
        while i < ts.len()
            invariant
                1 <= i <= ts.len(),
                out.len() == i - 1,
                forall|j: int| 0 <= j < out.len() ==> out[j]@ == ts[j + 1]@,
            decreases ts.len() - i,
        {
            out.push(clone_expr(&ts[i]));
            i += 1;
        }
        assert(terms_of(out) =~= terms_of(*ts).skip(1));
        Expr::NEListLit(Box::new(clone_expr(&ts[0])), out)
    }
}

fn digit_text(d: u64) -> (r: &'static str)
    requires
        d < 10,
    ensures
        r@ == seq![digit_char(d as int)],
{
    proof {
        reveal_strlit("0");
        reveal_strlit("1");
        reveal_strlit("2");
        reveal_strlit("3");
        reveal_strlit("4");
        reveal_strlit("5");
        reveal_strlit("6");
        reveal_strlit("7");
        reveal_strlit("8");
        reveal_strlit("9");
    }
    let r = if d == 0 {
        "0"
    } else if d == 1 {
        "1"
    } else if d == 2 {
        "2"
    } else if d == 3 {
        "3"
    } else if d == 4 {
        "4"
    } else if d == 5 {
        "5"
    } else if d == 6 {
        "6"
    } else if d == 7 {
        "7"
    } else if d == 8 {
        "8"
    } else {
        "9"
    };
    assert(r@ =~= seq![digit_char(d as int)]);
    r
}

/// The decimal digits of `n`.
pub fn show_natural(n: u64) -> (r: String)
    ensures
        r@ == natural_text(n as nat),
    decreases n,
{
    if n < 10 {
        String::from_str(digit_text(n))
    } else {
        let front = show_natural(n / 10);
        let r = front.concat(digit_text(n % 10));
        assert(r@ =~= natural_text((n / 10) as nat).push(digit_char((n % 10) as int)));
        r
    }
}

/// The sign and the decimal digits of `n`.
pub fn show_integer(n: i64) -> (r: String)
    ensures
        r@ == integer_text(n as int),
{
    proof {
        reveal_strlit("-");
        reveal_strlit("+");
    }
    if n < 0 {
        let m: u64 = if n == i64::MIN {
            9223372036854775808u64
        } else {
            (-n) as u64
        };
        let r = String::from_str("-").concat(show_natural(m).as_str());
        assert(r@ =~= seq!['-'] + natural_text((-n) as nat));
        r
    } else {
        let r = String::from_str("+").concat(show_natural(n as u64).as_str());
        assert(r@ =~= seq!['+'] + natural_text(n as nat));
        r
    }
}

fn hex_digit_text(d: u32) -> (r: &'static str)
    requires
        d < 16,
    ensures
        r@ == seq![hex_digit_char(d as int)],
{
    proof {
        reveal_strlit("a");
        reveal_strlit("b");
        reveal_strlit("c");
        reveal_strlit("d");
        reveal_strlit("e");
        reveal_strlit("f");
    }
    let r = if d < 10 {
        digit_text(d as u64)
    } else if d == 10 {
        "a"
    } else if d == 11 {
        "b"
    } else if d == 12 {
        "c"
    } else if d == 13 {
        "d"
    } else if d == 14 {
        "e"
    } else {
        "f"
    };
    assert(r@ =~= seq![hex_digit_char(d as int)]);
    r
}

fn push_escaped(out: &mut String, s: &String, i: usize)
    requires
        i < s@.len() <= usize::MAX,
    ensures
        final(out)@ == old(out)@ + escaped_char(s@[i as int]),
{
    proof {
        reveal_strlit("\\\"");
        reveal_strlit("\\u0024");
        reveal_strlit("\\\\");
        reveal_strlit("\\b");
        reveal_strlit("\\f");
        reveal_strlit("\\n");
        reveal_strlit("\\r");
        reveal_strlit("\\t");
        reveal_strlit("\\u00");
    }
    let ghost before = out@;
    let c = s.as_str().get_char(i);
    if c == '"' {
        out.append("\\\"");
        assert(out@ =~= before + escaped_char(c));
    } else if c == '$' {
        out.append("\\u0024");
        assert(out@ =~= before + escaped_char(c));
    } else if c == '\\' {
        out.append("\\\\");
        assert(out@ =~= before + escaped_char(c));
    } else if c == '\u{8}' {
        out.append("\\b");
        assert(out@ =~= before + escaped_char(c));
    } else if c == '\u{c}' {
        out.append("\\f");
        assert(out@ =~= before + escaped_char(c));
    } else if c == '\n' {
        out.append("\\n");
        assert(out@ =~= before + escaped_char(c));
    } else if c == '\r' {
        out.append("\\r");
        assert(out@ =~= before + escaped_char(c));
    } else if c == '\t' {
        out.append("\\t");
        assert(out@ =~= before + escaped_char(c));
    } else if (c as u32) < 0x20 {
        let n = c as u32;
        out.append("\\u00");
        out.append(hex_digit_text(n / 16));
        out.append(hex_digit_text(n % 16));
        assert(out@ =~= before + escaped_char(c));
    } else {
        out.append(s.as_str().substring_char(i, i + 1));
        assert(out@ =~= before + escaped_char(c));
    }
}

/// The text `s` as a text literal in source.
pub fn show_text(s: &String) -> (r: String)
    ensures
        r@ == text_show(s@),
{
    proof {
        reveal_strlit("\"");
    }
    let n = s.as_str().unicode_len();
    let mut out = String::from_str("\"");
    let mut i: usize = 0;
    while i < n
        invariant
            i <= n,
            n == s@.len(),
            out@ =~= seq!['"'] + escaped_text(s@, i as nat),
        decreases n - i,
    {
        push_escaped(&mut out, s, i);
        i += 1;
    }
    out.append("\"");
    assert(out@ =~= text_show(s@));
    out
}

fn mk_plain_text(s: String) -> (r: Expr)
    ensures
        r@ == plain_text(s@),
{
    let none: Vec<(String, Expr)> = Vec::new();
    assert(fields_of(none) =~= Seq::<(Name, Term)>::empty());
    Expr::TextLit(none, s)
}

fn mk_indexed_type(t: Expr) -> (r: Expr)
    ensures
        r@ == indexed_type(t@),
{
    let mut fs: Vec<(String, Expr)> = Vec::new();
    fs.push((mk_name("index"), Expr::Builtin(Builtin::Natural)));
    fs.push((mk_name("value"), t));
    assert(fields_of(fs) =~= seq![("index"@, Term::Builtin(Builtin::Natural)), ("value"@, t@)]);
    Expr::RecordType(fs)
}

fn mk_indexed_entry(i: u64, v: Expr) -> (r: Expr)
    ensures
        r@ == indexed_entry(i as nat, v@),
{
    let mut fs: Vec<(String, Expr)> = Vec::new();
    fs.push((mk_name("index"), Expr::NaturalLit(i)));
    fs.push((mk_name("value"), v));
    assert(fields_of(fs) =~= seq![("index"@, Term::NaturalLit(i)), ("value"@, v@)]);
    Expr::RecordLit(fs)
}

fn indexed_tail(rest: &Vec<Expr>) -> (r: Vec<Expr>)
    ensures
        terms_of(r) == Seq::new(
            terms_of(*rest).len(),
            |i: int| indexed_entry((i + 1) as nat, terms_of(*rest)[i]),
        ),
{
    let mut out: Vec<Expr> = Vec::new();
    let mut i: usize = 0;
    while i < rest.len()
        invariant
            i <= rest.len(),
            out.len() == i,
            forall|j: int| 0 <= j < i ==> out[j]@ == indexed_entry((j + 1) as nat, rest[j]@),
        decreases rest.len() - i,
    {
        out.push(mk_indexed_entry(i as u64 + 1, clone_expr(&rest[i])));
        i += 1;
    }
    assert(terms_of(out) =~= Seq::new(
        terms_of(*rest).len(),
        |i: int| indexed_entry((i + 1) as nat, terms_of(*rest)[i]),
    ));
    out
}

fn natural_fn(b: Builtin, n: u64) -> (r: Option<Expr>)
    ensures
        agrees(r, spec_natural_fn(b, n)),
{
    match b {
        Builtin::NaturalIsZero => Some(Expr::BoolLit(n == 0)),
        Builtin::NaturalEven => Some(Expr::BoolLit(n % 2 == 0)),
        Builtin::NaturalOdd => Some(Expr::BoolLit(n % 2 == 1)),
        Builtin::NaturalToInteger => if n <= i64::MAX as u64 {
            Some(Expr::IntegerLit(n as i64))
        } else {
            None
        },
        Builtin::NaturalShow => Some(mk_plain_text(show_natural(n))),
        _ => None,
    }
}

fn reverse_tail(x: &Expr, rest: &Vec<Expr>) -> (r: Vec<Expr>)
    ensures
        terms_of(r) == reversed(x@, terms_of(*rest)).skip(1),
{
    let mut out: Vec<Expr> = Vec::new();
    let mut j: usize = 0;
    while j < rest.len()
        invariant
            j <= rest.len(),
            out.len() == j,
            forall|i: int| 0 <= i < j ==> out[i]@ == reversed(x@, terms_of(*rest))[i + 1],
        decreases rest.len() - j,
    {
        let k = rest.len() - 1 - j;
        if k == 0 {
            out.push(clone_expr(x));
        } else {
            out.push(clone_expr(&rest[k - 1]));
        }
        j += 1;
    }
    assert(terms_of(out) =~= reversed(x@, terms_of(*rest)).skip(1));
    out
}

fn last_of(x: &Expr, rest: &Vec<Expr>) -> (r: Expr)
    ensures
        r@ == reversed(x@, terms_of(*rest))[0],
{
    if rest.len() == 0 {
        clone_expr(x)
    } else {
        clone_expr(&rest[rest.len() - 1])
    }
}

fn list_fn(b: Builtin, t: &Expr, w: Expr, stuck: Expr) -> (r: Option<Expr>)
    ensures
        agrees(r, spec_list_fn(b, t@, w@, stuck@)),
{
    reveal_with_fuel(term_of, 2);
    match &w {
        Expr::EmptyListLit(_) => match b {
            Builtin::ListLength => Some(Expr::NaturalLit(0)),
            Builtin::ListHead => Some(mk_app(Expr::Builtin(Builtin::OptionalNone), clone_expr(t))),
            Builtin::ListLast => Some(mk_app(Expr::Builtin(Builtin::OptionalNone), clone_expr(t))),
            Builtin::ListReverse => Some(w),
            Builtin::ListIndexed => Some(
                Expr::EmptyListLit(Box::new(mk_list_of(mk_indexed_type(clone_expr(t))))),
            ),
            _ => Some(stuck),
        },
        Expr::NEListLit(x, rest) => match b {
            Builtin::ListLength => {
                let n = rest.len();
                if (n as u64) < u64::MAX {
                    Some(Expr::NaturalLit(n as u64 + 1))
                } else {
                    None
                }
            },
            Builtin::ListHead => Some(Expr::SomeLit(Box::new(clone_expr(x)))),
            Builtin::ListLast => {
                let last = last_of(x, rest);
                Some(Expr::SomeLit(Box::new(last)))
            },
            Builtin::ListReverse => {
                let tail = reverse_tail(x, rest);
                let head = last_of(x, rest);
                Some(Expr::NEListLit(Box::new(head), tail))
            },
            Builtin::ListIndexed => {
                let tail = indexed_tail(rest);
                Some(Expr::NEListLit(Box::new(mk_indexed_entry(0, clone_expr(x))), tail))
            },
            _ => Some(stuck),
        },
        _ => Some(stuck),
    }
}

fn text_append(lc: &Vec<(String, Expr)>, lt: &String, rc: &Vec<(String, Expr)>, rt: &String) -> (r:
    Expr)
    ensures
        r@ == spec_text_append(fields_of(*lc), lt@, fields_of(*rc), rt@),
{
    if rc.len() == 0 {
        Expr::TextLit(clone_fields(lc), lt.clone().concat(rt.as_str()))
    } else {
        let mut out = clone_fields(lc);
        out.push((lt.clone().concat(rc[0].0.as_str()), clone_expr(&rc[0].1)));
        let ghost first = fields_of(out);
        assert(first =~= fields_of(*lc).push((lt@ + rc[0].0@, rc[0].1@)));
        let mut i: usize = 1;
        while i < rc.len()
            invariant
                1 <= i <= rc.len(),
                fields_of(out) =~= first + fields_of(*rc).subrange(1, i as int),
            decreases rc.len() - i,
        {
            let ghost prev = fields_of(out);
            out.push((rc[i].0.clone(), clone_expr(&rc[i].1)));
            assert(fields_of(out) =~= prev.push(fields_of(*rc)[i as int]));
            i += 1;
        }
        assert(fields_of(*rc).subrange(1, rc.len() as int) =~= fields_of(*rc).skip(1));
        Expr::TextLit(out, rt.clone())
    }
}

fn list_append(x: &Expr, xs: &Vec<Expr>, y: &Expr, ys: &Vec<Expr>) -> (r: Expr)
    ensures
        r@ == Term::NEListLit(Box::new(x@), terms_of(*xs).push(y@) + terms_of(*ys)),
{
    let mut out = clone_terms(xs);
    out.push(clone_expr(y));
    let ghost first = terms_of(out);
    assert(first =~= terms_of(*xs).push(y@));
    let mut i: usize = 0;
    while i < ys.len()
        invariant
            i <= ys.len(),
            terms_of(out) =~= first + terms_of(*ys).subrange(0, i as int),
        decreases ys.len() - i,
    {
        let ghost prev = terms_of(out);
        out.push(clone_expr(&ys[i]));
        assert(terms_of(out) =~= prev.push(terms_of(*ys)[i as int]));
        i += 1;
    }
    assert(terms_of(*ys).subrange(0, ys.len() as int) =~= terms_of(*ys));
    Expr::NEListLit(Box::new(clone_expr(x)), out)
}

/// Folds the operator `o` on two operands in weak head normal form.
pub fn binop(o: BinOp, l: Expr, r: Expr) -> (res: Option<Expr>)
    ensures
        agrees(res, spec_binop(o, l@, r@)),
{
    match (o, &l, &r) {
        (BinOp::BoolAnd, Expr::BoolLit(x), Expr::BoolLit(y)) => Some(Expr::BoolLit(*x && *y)),
        (BinOp::BoolOr, Expr::BoolLit(x), Expr::BoolLit(y)) => Some(Expr::BoolLit(*x || *y)),
        (BinOp::BoolEQ, Expr::BoolLit(x), Expr::BoolLit(y)) => Some(Expr::BoolLit(*x == *y)),
        (BinOp::BoolNE, Expr::BoolLit(x), Expr::BoolLit(y)) => Some(Expr::BoolLit(*x != *y)),
        (BinOp::NaturalPlus, Expr::NaturalLit(x), Expr::NaturalLit(y)) => match x.checked_add(*y) {
            Some(z) => Some(Expr::NaturalLit(z)),
            None => None,
        },
        (BinOp::NaturalTimes, Expr::NaturalLit(x), Expr::NaturalLit(y)) => match x.checked_mul(
            *y,
        ) {
            Some(z) => Some(Expr::NaturalLit(z)),
            None => None,
        },
        (BinOp::TextAppend, Expr::TextLit(lc, lt), Expr::TextLit(rc, rt)) => Some(
            text_append(lc, lt, rc, rt),
        ),
        (BinOp::ListAppend, Expr::EmptyListLit(_), Expr::EmptyListLit(_)) => Some(l),
        (BinOp::ListAppend, Expr::EmptyListLit(_), Expr::NEListLit(_, _)) => Some(r),
        (BinOp::ListAppend, Expr::NEListLit(_, _), Expr::EmptyListLit(_)) => Some(l),
        (BinOp::ListAppend, Expr::NEListLit(x, xs), Expr::NEListLit(y, ys)) => Some(
            list_append(x, xs, y, ys),
        ),
        (BinOp::RightBiasedRecordMerge, Expr::RecordLit(a), Expr::RecordLit(b)) => Some(
            Expr::RecordLit(merge_fields(MergeMode::Prefer, a, b)),
        ),
        (BinOp::RecursiveRecordMerge, Expr::RecordLit(a), Expr::RecordLit(b)) => Some(
            Expr::RecordLit(merge_fields(MergeMode::Combine, a, b)),
        ),
        (BinOp::RecursiveRecordTypeMerge, Expr::RecordType(a), Expr::RecordType(b)) => Some(
            Expr::RecordType(merge_fields(MergeMode::CombineTypes, a, b)),
        ),
        _ => Some(Expr::BinOp(o, Box::new(l), Box::new(r))),
    }
}

fn builtin1(f: u64, b: Builtin, a: &Expr) -> (r: Option<Expr>)
    ensures
        agrees(r, spec_builtin1(f as nat, b, a@)),
    decreases f, 1nat,
{
    match b {
        Builtin::NaturalIsZero | Builtin::NaturalEven | Builtin::NaturalOdd
        | Builtin::NaturalToInteger | Builtin::NaturalShow => match whnf(a, f) {
            None => None,
            Some(Expr::NaturalLit(n)) => natural_fn(b, n),
            Some(_) => Some(mk_app(Expr::Builtin(b), clone_expr(a))),
        },
        Builtin::IntegerShow => match whnf(a, f) {
            None => None,
            Some(Expr::IntegerLit(n)) => Some(mk_plain_text(show_integer(n))),
            Some(_) => Some(mk_app(Expr::Builtin(b), clone_expr(a))),
        },
        Builtin::TextShow => match whnf(a, f) {
            None => None,
            Some(Expr::TextLit(chunks, tail)) => {
                assert(fields_of(chunks).len() == chunks.len());
                if chunks.len() == 0 {
                    Some(mk_plain_text(show_text(&tail)))
                } else {
                    Some(mk_app(Expr::Builtin(b), clone_expr(a)))
                }
            },
            Some(_) => Some(mk_app(Expr::Builtin(b), clone_expr(a))),
        },
        Builtin::NaturalBuild => {
            let e = mk_app(
                mk_app(mk_app(clone_expr(a), Expr::Builtin(Builtin::Natural)), mk_succ_fn()),
                Expr::NaturalLit(0),
            );
            whnf(&e, f)
        },
        _ => Some(mk_app(Expr::Builtin(b), clone_expr(a))),
    }
}

fn builtin2(f: u64, b: Builtin, a1: &Expr, a: &Expr) -> (r: Option<Expr>)
    ensures
        agrees(r, spec_builtin2(f as nat, b, a1@, a@)),
    decreases f, 1nat,
{
    match b {
        Builtin::NaturalSubtract => {
            let m = whnf(a1, f);
            let n = whnf(a, f);
            match (m, n) {
                (Some(Expr::NaturalLit(m)), Some(Expr::NaturalLit(n))) => Some(
                    Expr::NaturalLit(
                        if n >= m {
                            n - m
                        } else {
                            0
                        },
                    ),
                ),
                (Some(_), Some(_)) => Some(
                    mk_app(mk_app(Expr::Builtin(b), clone_expr(a1)), clone_expr(a)),
                ),
                _ => None,
            }
        },
        Builtin::ListLength | Builtin::ListHead | Builtin::ListLast | Builtin::ListReverse
        | Builtin::ListIndexed => match whnf(a, f) {
            None => None,
            Some(w) => {
                let stuck = mk_app(mk_app(Expr::Builtin(b), clone_expr(a1)), clone_expr(a));
                list_fn(b, a1, w, stuck)
            },
        },
        Builtin::ListBuild => match shift(1, &V(mk_name("a"), 0), a1) {
            Some(a1s) => {
                let e = mk_app(
                    mk_app(
                        mk_app(clone_expr(a), mk_list_of(clone_expr(a1))),
                        mk_cons_fn(clone_expr(a1), a1s),
                    ),
                    Expr::EmptyListLit(Box::new(mk_list_of(clone_expr(a1)))),
                );
                whnf(&e, f)
            },
            None => None,
        },
        Builtin::OptionalBuild => {
            let e = mk_app(
                mk_app(
                    mk_app(clone_expr(a), mk_optional_of(clone_expr(a1))),
                    mk_some_fn(clone_expr(a1)),
                ),
                mk_app(Expr::Builtin(Builtin::OptionalNone), clone_expr(a1)),
            );
            whnf(&e, f)
        },
        _ => Some(mk_app(mk_app(Expr::Builtin(b), clone_expr(a1)), clone_expr(a))),
    }
}

fn natural_fold(f: u64, n: &Expr, t: &Expr, s: &Expr, z: &Expr) -> (r: Option<Expr>)
    ensures
        agrees(r, spec_natural_fold(f as nat, n@, t@, s@, z@)),
    decreases f, 1nat,
{
    match whnf(n, f) {
        None => None,
        Some(Expr::NaturalLit(k)) => if k == 0 {
            whnf(z, f)
        } else {
            let e = mk_app(clone_expr(s), mk_natural_fold_app(Expr::NaturalLit(k - 1), t, s, z));
            whnf(&e, f)
        },
        Some(_) => Some(mk_natural_fold_app(clone_expr(n), t, s, z)),
    }
}

fn list_fold(f: u64, t: &Expr, x: &Expr, ty: &Expr, g: &Expr, a: &Expr) -> (r: Option<Expr>)
    ensures
        agrees(r, spec_list_fold(f as nat, t@, x@, ty@, g@, a@)),
    decreases f, 1nat,
{
    match whnf(x, f) {
        None => None,
        Some(Expr::EmptyListLit(_)) => whnf(a, f),
        Some(Expr::NEListLit(h, rest)) => {
            let e = mk_app(
                mk_app(clone_expr(g), *h),
                mk_fold_app(Builtin::ListFold, t, mk_list_from(t, &rest), ty, g, a),
            );
            whnf(&e, f)
        },
        Some(_) => Some(mk_fold_app(Builtin::ListFold, t, clone_expr(x), ty, g, a)),
    }
}

fn none_of(w: &Expr) -> (r: bool)
    ensures
        r == is_none_of(w@),
{
    proof {
        reveal_with_fuel(term_of, 2);
    }
    match w {
        Expr::App(n, _) => match &**n {
            Expr::Builtin(Builtin::OptionalNone) => true,
            _ => false,
        },
        _ => false,
    }
}

fn optional_fold(f: u64, t: &Expr, x: &Expr, ty: &Expr, g: &Expr, a: &Expr) -> (r: Option<Expr>)
    ensures
        agrees(r, spec_optional_fold(f as nat, t@, x@, ty@, g@, a@)),
    decreases f, 1nat,
{
    match whnf(x, f) {
        None => None,
        Some(Expr::SomeLit(v)) => {
            let e = mk_app(clone_expr(g), *v);
            whnf(&e, f)
        },
        Some(w) => if none_of(&w) {
            whnf(a, f)
        } else {
            Some(mk_fold_app(Builtin::OptionalFold, t, clone_expr(x), ty, g, a))
        },
    }
}

fn builtin5(f: u64, b: Builtin, t: &Expr, x: &Expr, ty: &Expr, g: &Expr, a: &Expr) -> (r: Option<
    Expr,
>)
    ensures
        agrees(r, spec_builtin5(f as nat, b, t@, x@, ty@, g@, a@)),
    decreases f, 2nat,
{
    match b {
        Builtin::ListFold => list_fold(f, t, x, ty, g, a),
        Builtin::OptionalFold => optional_fold(f, t, x, ty, g, a),
        _ => Some(mk_fold_app(b, t, clone_expr(x), ty, g, a)),
    }
}

#[verifier::rlimit(50)]
fn apply_builtin(f: u64, g: &Expr, a: &Expr) -> (r: Option<Expr>)
    ensures
        agrees(r, spec_apply_builtin(f as nat, g@, a@)),
    decreases f, 3nat,
{
    proof {
        reveal_with_fuel(term_of, 5);
    }
    match g {
        Expr::Builtin(b) => builtin1(f, *b, a),
        Expr::App(h1, a1) => match &**h1 {
            Expr::Builtin(b) => builtin2(f, *b, a1, a),
            Expr::App(h2, a2) => match &**h2 {
                Expr::App(h3, a3) => match &**h3 {
                    Expr::Builtin(Builtin::NaturalFold) => natural_fold(f, a3, a2, a1, a),
                    Expr::App(h4, a4) => match &**h4 {
                        Expr::Builtin(b) => builtin5(f, *b, a4, a3, a2, a1, a),
                        _ => Some(mk_app(clone_expr(g), clone_expr(a))),
                    },
                    _ => Some(mk_app(clone_expr(g), clone_expr(a))),
                },
                _ => Some(mk_app(clone_expr(g), clone_expr(a))),
            },
            _ => Some(mk_app(clone_expr(g), clone_expr(a))),
        },
        _ => Some(mk_app(clone_expr(g), clone_expr(a))),
    }
}

fn whnf_app(f: u64, g: &Expr, a: &Expr) -> (r: Option<Expr>)
    ensures
        agrees(r, spec_whnf_app(f as nat, g@, a@)),
    decreases f, 4nat,
{
    match whnf(g, f) {
        None => None,
        Some(Expr::Lam(x, _, b)) => match subst_shift(&V(x, 0), a, &b) {
            Some(r) => whnf(&r, f),
            None => None,
        },
        Some(g2) => apply_builtin(f, &g2, a),
    }
}

fn whnf_if(f: u64, c: &Expr, a: &Expr, b: &Expr) -> (r: Option<Expr>)
    ensures
        agrees(r, spec_whnf_if(f as nat, c@, a@, b@)),
    decreases f, 1nat,
{
    match whnf(c, f) {
        None => None,
        Some(Expr::BoolLit(v)) => if v {
            whnf(a, f)
        } else {
            whnf(b, f)
        },
        Some(c2) => Some(
            Expr::BoolIf(Box::new(c2), Box::new(clone_expr(a)), Box::new(clone_expr(b))),
        ),
    }
}

fn whnf_field(f: u64, r: &Expr, l: &String) -> (res: Option<Expr>)
    ensures
        agrees(res, spec_whnf_field(f as nat, r@, l@)),
    decreases f, 1nat,
{
    match whnf(r, f) {
        None => None,
        Some(Expr::RecordLit(fs)) => match find_field(&fs, l) {
            Some(i) => whnf(&fs[i].1, f),
            None => Some(Expr::Field(Box::new(Expr::RecordLit(fs)), l.clone())),
        },
        Some(r2) => Some(Expr::Field(Box::new(r2), l.clone())),
    }
}

fn whnf_projection(f: u64, r: &Expr, ls: &Vec<String>) -> (res: Option<Expr>)
    ensures
        agrees(res, spec_whnf_projection(f as nat, r@, names_of(*ls))),
    decreases f, 1nat,
{
    match whnf(r, f) {
        None => None,
        Some(Expr::RecordLit(fs)) => match project(&fs, ls) {
            Some(fs2) => Some(Expr::RecordLit(fs2)),
            None => Some(Expr::Projection(Box::new(Expr::RecordLit(fs)), clone_names(ls))),
        },
        Some(r2) => Some(Expr::Projection(Box::new(r2), clone_names(ls))),
    }
}

#[verifier::rlimit(50)]
fn whnf_merge(f: u64, h: &Expr, u: &Expr, ot: &Option<Box<Expr>>) -> (res: Option<Expr>)
    ensures
        agrees(res, spec_whnf_merge(f as nat, h@, u@, opt_box_term_of(*ot))),
    decreases f, 1nat,
{
    proof {
        reveal_with_fuel(term_of, 3);
    }
    let h2 = whnf(h, f);
    let u2 = whnf(u, f);
    match (h2, u2) {
        (Some(h2), Some(u2)) => {
            match &h2 {
                Expr::RecordLit(hs) => match &u2 {
                    Expr::App(c, v) => match &**c {
                        Expr::Field(ut, k) => match find_field(hs, k) {
                            Some(i) => match &**ut {
                                Expr::UnionType(_) => {
                                    let e = mk_app(clone_expr(&hs[i].1), clone_expr(v));
                                    return whnf(&e, f);
                                },
                                _ => {},
                            },
                            None => {},
                        },
                        _ => {},
                    },
                    Expr::Field(ut, k) => match find_field(hs, k) {
                        Some(i) => match &**ut {
                            Expr::UnionType(_) => {
                                return whnf(&hs[i].1, f);
                            },
                            _ => {},
                        },
                        None => {},
                    },
                    _ => {},
                },
                _ => {},
            }
            Some(Expr::Merge(Box::new(h2), Box::new(u2), clone_opt_box(ot)))
        },
        _ => None,
    }
}

/// Reduces `e` to weak head normal form within the budget `fuel`.
pub fn whnf(e: &Expr, fuel: u64) -> (r: Option<Expr>)
    ensures
        agrees(r, spec_whnf(fuel as nat, e@)),
    decreases fuel, 0nat,
{
    if fuel == 0 {
        return None;
    }
    let f = fuel - 1;
    match e {
        Expr::App(g, a) => whnf_app(f, g, a),
        Expr::Let(x, _, v, b) => match subst_shift(&V(x.clone(), 0), v, b) {
            Some(r) => whnf(&r, f),
            None => None,
        },
        Expr::Annot(a, _) => whnf(a, f),
        Expr::BoolIf(c, a, b) => whnf_if(f, c, a, b),
        Expr::Field(r, l) => whnf_field(f, r, l),
        Expr::Projection(r, ls) => whnf_projection(f, r, ls),
        Expr::BinOp(o, l, r) => {
            let l2 = whnf(l, f);
            let r2 = whnf(r, f);
            match (l2, r2) {
                (Some(l2), Some(r2)) => binop(*o, l2, r2),
                _ => None,
            }
        },
        Expr::Merge(h, u, ot) => whnf_merge(f, h, u, ot),
        _ => Some(clone_expr(e)),
    }
}

/// `spec_shift` on the first `k` of a list of labelled terms.
pub open spec fn spec_nf_fields(f: nat, fs: Fields, k: nat) -> Option<Fields>
    decreases f, 1nat, k,
{
    if k == 0 || k > fs.len() {
        Some(Seq::empty())
    } else {
        match spec_nf_fields(f, fs, (k - 1) as nat) {
            Some(done) => match spec_nf(f, fs[k - 1].1) {
                Some(t) => Some(done.push((fs[k - 1].0, t))),
                None => None,
            },
            None => None,
        }
    }
}

/// `spec_shift` on the first `k` of a list of terms.
pub open spec fn spec_nf_terms(f: nat, ts: Seq<Term>, k: nat) -> Option<
    Seq<Term>,
>
    decreases f, 1nat, k,
{
    if k == 0 || k > ts.len() {
        Some(Seq::empty())
    } else {
        match spec_nf_terms(f, ts, (k - 1) as nat) {
            Some(done) => match spec_nf(f, ts[k - 1]) {
                Some(t) => Some(done.push(t)),
                None => None,
            },
            None => None,
        }
    }
}

/// `spec_shift` on the first `k` alternatives of a union type.
pub open spec fn spec_nf_alts(f: nat, fs: Alternatives, k: nat) -> Option<
    Alternatives,
>
    decreases f, 1nat, k,
{
    if k == 0 || k > fs.len() {
        Some(Seq::empty())
    } else {
        match spec_nf_alts(f, fs, (k - 1) as nat) {
            Some(done) => match fs[k - 1].1 {
                Some(t0) => match spec_nf(f, t0) {
                    Some(t) => Some(done.push((fs[k - 1].0, Some(t)))),
                    None => None,
                },
                None => Some(done.push((fs[k - 1].0, None))),
            },
            None => None,
        }
    }
}

/// `t` with each of its sub-expressions in normal form.
pub open spec fn spec_nf_children(f: nat, t: Term) -> Option<Term>
    decreases f, 2nat, 0nat,
{
    match t {
        Term::Lam(y, a, b) => match (
            spec_nf(f, *a),
            spec_nf(f, *b),
        ) {
            (Some(a2), Some(b2)) => Some(Term::Lam(y, Box::new(a2), Box::new(b2))),
            _ => None,
        },
        Term::Pi(y, a, b) => match (
            spec_nf(f, *a),
            spec_nf(f, *b),
        ) {
            (Some(a2), Some(b2)) => Some(Term::Pi(y, Box::new(a2), Box::new(b2))),
            _ => None,
        },
        Term::Let(y, ot, v, b) => match (
            spec_nf(f, *v),
            spec_nf(f, *b),
        ) {
            (Some(v2), Some(b2)) => match ot {
                Some(t0) => match spec_nf(f, *t0) {
                    Some(t2) => Some(
                        Term::Let(y, Some(Box::new(t2)), Box::new(v2), Box::new(b2)),
                    ),
                    None => None,
                },
                None => Some(Term::Let(y, None, Box::new(v2), Box::new(b2))),
            },
            _ => None,
        },
        Term::App(g, a) => match (spec_nf(f, *g), spec_nf(f, *a)) {
            (Some(f2), Some(a2)) => Some(Term::App(Box::new(f2), Box::new(a2))),
            _ => None,
        },
        Term::Annot(a, b) => match (spec_nf(f, *a), spec_nf(f, *b)) {
            (Some(a2), Some(b2)) => Some(Term::Annot(Box::new(a2), Box::new(b2))),
            _ => None,
        },
        Term::Assert(a) => match spec_nf(f, *a) {
            Some(a2) => Some(Term::Assert(Box::new(a2))),
            None => None,
        },
        Term::TextLit(chunks, tail) => match spec_nf_fields(f, chunks, chunks.len()) {
            Some(c2) => Some(Term::TextLit(c2, tail)),
            None => None,
        },
        Term::BinOp(o, l, r) => match (spec_nf(f, *l), spec_nf(f, *r)) {
            (Some(l2), Some(r2)) => Some(Term::BinOp(o, Box::new(l2), Box::new(r2))),
            _ => None,
        },
        Term::BoolIf(c, a, b) => match (
            spec_nf(f, *c),
            spec_nf(f, *a),
            spec_nf(f, *b),
        ) {
            (Some(c2), Some(a2), Some(b2)) => Some(
                Term::BoolIf(Box::new(c2), Box::new(a2), Box::new(b2)),
            ),
            _ => None,
        },
        Term::EmptyListLit(a) => match spec_nf(f, *a) {
            Some(a2) => Some(Term::EmptyListLit(Box::new(a2))),
            None => None,
        },
        Term::NEListLit(a, rest) => match (
            spec_nf(f, *a),
            spec_nf_terms(f, rest, rest.len()),
        ) {
            (Some(a2), Some(r2)) => Some(Term::NEListLit(Box::new(a2), r2)),
            _ => None,
        },
        Term::SomeLit(a) => match spec_nf(f, *a) {
            Some(a2) => Some(Term::SomeLit(Box::new(a2))),
            None => None,
        },
        Term::RecordType(fs) => match spec_nf_fields(f, fs, fs.len()) {
            Some(f2) => Some(Term::RecordType(f2)),
            None => None,
        },
        Term::RecordLit(fs) => match spec_nf_fields(f, fs, fs.len()) {
            Some(f2) => Some(Term::RecordLit(f2)),
            None => None,
        },
        Term::UnionType(fs) => match spec_nf_alts(f, fs, fs.len()) {
            Some(f2) => Some(Term::UnionType(f2)),
            None => None,
        },
        Term::Merge(r, u, ot) => match (spec_nf(f, *r), spec_nf(f, *u)) {
            (Some(r2), Some(u2)) => match ot {
                Some(t0) => match spec_nf(f, *t0) {
                    Some(t2) => Some(Term::Merge(Box::new(r2), Box::new(u2), Some(Box::new(t2)))),
                    None => None,
                },
                None => Some(Term::Merge(Box::new(r2), Box::new(u2), None)),
            },
            _ => None,
        },
        Term::Field(r, l) => match spec_nf(f, *r) {
            Some(r2) => Some(Term::Field(Box::new(r2), l)),
            None => None,
        },
        Term::Projection(r, ls) => match spec_nf(f, *r) {
            Some(r2) => Some(Term::Projection(Box::new(r2), ls)),
            None => None,
        },
        _ => Some(t),
    }
}

/// The normal form of `t`, found within the budget `f`: its weak head
/// normal form, with every sub-expression in normal form in turn.
pub open spec fn spec_nf(f: nat, t: Term) -> Option<Term>
    decreases f, 0nat, 0nat,
{
    if f == 0 {
        None
    } else {
        match spec_whnf(f, t) {
            Some(w) => spec_nf_children((f - 1) as nat, w),
            None => None,
        }
    }
}

fn nf_opt(f: u64, o: &Option<Box<Expr>>) -> (r:
    Option<Option<Box<Expr>>>)
    ensures
        match *o {
            Some(e) => match r {
                Some(Some(e2)) => spec_nf(f as nat, e@) == Some(e2@),
                Some(None) => false,
                None => spec_nf(f as nat, e@) is None,
            },
            None => r == Some(None::<Box<Expr>>),
        },
    decreases f, 1nat, 0nat,
{
    match o {
        Some(e) => match nf(e, f) {
            Some(e2) => Some(Some(Box::new(e2))),
            None => None,
        },
        None => Some(None),
    }
}

fn nf_fields(f: u64, fs: &Vec<(String, Expr)>) -> (r:
    Option<Vec<(String, Expr)>>)
    ensures
        match r {
            Some(out) => spec_nf_fields(f as nat, fields_of(*fs), fs.len() as nat)
                == Some(fields_of(out)),
            None => spec_nf_fields(f as nat, fields_of(*fs), fs.len() as nat) is None,
        },
    decreases f, 1nat, 0nat,
{
    let mut out: Vec<(String, Expr)> = Vec::new();
    let mut ok = true;
    let mut i: usize = 0;
    while i < fs.len()
        invariant
            i <= fs.len(),
            ok ==> spec_nf_fields(f as nat, fields_of(*fs), i as nat) == Some(
                fields_of(out),
            ),
            !ok ==> spec_nf_fields(f as nat, fields_of(*fs), i as nat) is None,
        decreases fs.len() - i,
    {
        if ok {
            match nf(&fs[i].1, f) {
                Some(t) => {
                    let ghost prev = fields_of(out);
                    out.push((fs[i].0.clone(), t));
                    assert(fields_of(out) =~= prev.push((fs[i as int].0@, t@)));
                },
                None => {
                    ok = false;
                },
            }
        }
        i += 1;
    }
    if ok {
        Some(out)
    } else {
        None
    }
}

fn nf_terms(f: u64, es: &Vec<Expr>) -> (r:
    Option<Vec<Expr>>)
    ensures
        match r {
            Some(out) => spec_nf_terms(f as nat, terms_of(*es), es.len() as nat) == Some(
                terms_of(out),
            ),
            None => spec_nf_terms(f as nat, terms_of(*es), es.len() as nat) is None,
        },
    decreases f, 1nat, 0nat,
{
    let mut out: Vec<Expr> = Vec::new();
    let mut ok = true;
    let mut i: usize = 0;
    while i < es.len()
        invariant
            i <= es.len(),
            ok ==> spec_nf_terms(f as nat, terms_of(*es), i as nat) == Some(
                terms_of(out),
            ),
            !ok ==> spec_nf_terms(f as nat, terms_of(*es), i as nat) is None,
        decreases es.len() - i,
    {
        if ok {
            match nf(&es[i], f) {
                Some(t) => {
                    let ghost prev = terms_of(out);
                    out.push(t);
                    assert(terms_of(out) =~= prev.push(t@));
                },
                None => {
                    ok = false;
                },
            }
        }
        i += 1;
    }
    if ok {
        Some(out)
    } else {
        None
    }
}

fn nf_alts(
    f: u64,
    fs: &Vec<(String, Option<Expr>)>,
) -> (r: Option<Vec<(String, Option<Expr>)>>)
    ensures
        match r {
            Some(out) => spec_nf_alts(f as nat, alternatives_of(*fs), fs.len() as nat)
                == Some(alternatives_of(out)),
            None => spec_nf_alts(f as nat, alternatives_of(*fs), fs.len() as nat) is None,
        },
    decreases f, 1nat, 0nat,
{
    let mut out: Vec<(String, Option<Expr>)> = Vec::new();
    let mut ok = true;
    let mut i: usize = 0;
    while i < fs.len()
        invariant
            i <= fs.len(),
            ok ==> spec_nf_alts(f as nat, alternatives_of(*fs), i as nat) == Some(
                alternatives_of(out),
            ),
            !ok ==> spec_nf_alts(f as nat, alternatives_of(*fs), i as nat) is None,
        decreases fs.len() - i,
    {
        if ok {
            let ghost prev = alternatives_of(out);
            match &fs[i].1 {
                Some(e) => {
                    match nf(e, f) {
                        Some(t) => {
                            out.push((fs[i].0.clone(), Some(t)));
                            assert(alternatives_of(out) =~= prev.push((fs[i as int].0@, Some(t@))));
                        },
                        None => {
                            ok = false;
                        },
                    }
                },
                None => {
                    out.push((fs[i].0.clone(), None));
                    assert(alternatives_of(out) =~= prev.push((fs[i as int].0@, None)));
                },
            }
        }
        i += 1;
    }
    if ok {
        Some(out)
    } else {
        None
    }
}

#[verifier::rlimit(50)]
fn nf_children(f: u64, e: &Expr) -> (r: Option<
    Expr,
>)
    ensures
        match r {
            Some(e2) => spec_nf_children(f as nat, e@) == Some(e2@),
            None => spec_nf_children(f as nat, e@) is None,
        },
    decreases f, 2nat, 0nat,
{
    match e {
        Expr::Lam(y, a, b) => {
            let a2 = nf(a, f);
            let b2 = nf(b, f);
            match (a2, b2) {
                (Some(a2), Some(b2)) => Some(Expr::Lam(y.clone(), Box::new(a2), Box::new(b2))),
                _ => None,
            }
        },
        Expr::Pi(y, a, b) => {
            let a2 = nf(a, f);
            let b2 = nf(b, f);
            match (a2, b2) {
                (Some(a2), Some(b2)) => Some(Expr::Pi(y.clone(), Box::new(a2), Box::new(b2))),
                _ => None,
            }
        },
        Expr::Let(y, ot, v, b) => {
            let t2 = nf_opt(f, ot);
            let v2 = nf(v, f);
            let b2 = nf(b, f);
            match (t2, v2, b2) {
                (Some(t2), Some(v2), Some(b2)) => Some(
                    Expr::Let(y.clone(), t2, Box::new(v2), Box::new(b2)),
                ),
                _ => None,
            }
        },
        Expr::App(g, a) => {
            let f2 = nf(g, f);
            let a2 = nf(a, f);
            match (f2, a2) {
                (Some(f2), Some(a2)) => Some(Expr::App(Box::new(f2), Box::new(a2))),
                _ => None,
            }
        },
        Expr::Annot(a, b) => {
            let a2 = nf(a, f);
            let b2 = nf(b, f);
            match (a2, b2) {
                (Some(a2), Some(b2)) => Some(Expr::Annot(Box::new(a2), Box::new(b2))),
                _ => None,
            }
        },
        Expr::Assert(a) => match nf(a, f) {
            Some(a2) => Some(Expr::Assert(Box::new(a2))),
            None => None,
        },
        Expr::TextLit(chunks, tail) => match nf_fields(f, chunks) {
            Some(c2) => Some(Expr::TextLit(c2, tail.clone())),
            None => None,
        },
        Expr::BinOp(o, l, r) => {
            let l2 = nf(l, f);
            let r2 = nf(r, f);
            match (l2, r2) {
                (Some(l2), Some(r2)) => Some(Expr::BinOp(*o, Box::new(l2), Box::new(r2))),
                _ => None,
            }
        },
        Expr::BoolIf(p, a, b) => {
            let c2 = nf(p, f);
            let a2 = nf(a, f);
            let b2 = nf(b, f);
            match (c2, a2, b2) {
                (Some(c2), Some(a2), Some(b2)) => Some(
                    Expr::BoolIf(Box::new(c2), Box::new(a2), Box::new(b2)),
                ),
                _ => None,
            }
        },
        Expr::EmptyListLit(a) => match nf(a, f) {
            Some(a2) => Some(Expr::EmptyListLit(Box::new(a2))),
            None => None,
        },
        Expr::NEListLit(a, rest) => {
            let a2 = nf(a, f);
            let r2 = nf_terms(f, rest);
            match (a2, r2) {
                (Some(a2), Some(r2)) => Some(Expr::NEListLit(Box::new(a2), r2)),
                _ => None,
            }
        },
        Expr::SomeLit(a) => match nf(a, f) {
            Some(a2) => Some(Expr::SomeLit(Box::new(a2))),
            None => None,
        },
        Expr::RecordType(fs) => match nf_fields(f, fs) {
            Some(f2) => Some(Expr::RecordType(f2)),
            None => None,
        },
        Expr::RecordLit(fs) => match nf_fields(f, fs) {
            Some(f2) => Some(Expr::RecordLit(f2)),
            None => None,
        },
        Expr::UnionType(fs) => match nf_alts(f, fs) {
            Some(f2) => Some(Expr::UnionType(f2)),
            None => None,
        },
        Expr::Merge(r, u, ot) => {
            let r2 = nf(r, f);
            let u2 = nf(u, f);
            let t2 = nf_opt(f, ot);
            match (r2, u2, t2) {
                (Some(r2), Some(u2), Some(t2)) => Some(Expr::Merge(Box::new(r2), Box::new(u2), t2)),
                _ => None,
            }
        },
        Expr::Field(r, l) => match nf(r, f) {
            Some(r2) => Some(Expr::Field(Box::new(r2), l.clone())),
            None => None,
        },
        Expr::Projection(r, ls) => match nf(r, f) {
            Some(r2) => Some(Expr::Projection(Box::new(r2), clone_names(ls))),
            None => None,
        },
        _ => Some(clone_expr(e)),
    }
}


/// Reduces `e` to normal form within the budget `fuel`.
pub fn nf(e: &Expr, fuel: u64) -> (r: Option<Expr>)
    ensures
        agrees(r, spec_nf(fuel as nat, e@)),
    decreases fuel, 0nat, 0nat,
{
    if fuel == 0 {
        return None;
    }
    match whnf(e, fuel) {
        Some(w) => nf_children(fuel - 1, &w),
        None => None,
    }
}

} // verus!
