//! The typing rules.
//!
//! `spec_type_with` gives, for a context and an expression, the checked
//! value with its type or the first error in source order. Every rule
//! works within a budget: the depth to which the checker, the reduction
//! of a type and the comparison of two types may go. Where the budget is
//! spent, or an index or a number leaves the machine's range, the result
//! is the error `BudgetExhausted`. The budget is no part of an answer: a
//! type, or any other error, is the result within every greater budget
//! too (`typecheck_laws`).
//!
//! A type that a rule takes out of another type (the result of a function,
//! a field of a record) is an expression; the rule checks it in the
//! context to have it as a typed value.

use vstd::prelude::*;
use vstd::string::*;
use crate::builtins::{spec_type_of_builtin, type_of_builtin};
use crate::context::{
    context_of, spec_insert_type, spec_insert_value, spec_lookup, spec_types_only, Bindings,
    TypecheckContext,
};
use crate::equality::{prop_equal, spec_equal};
use crate::error::{Failure, Message, TypeError, TypeMessage};
use crate::normalize::{app, mk_app, mk_name, spec_whnf, whnf};
use crate::record::{
    append_fields, find_alternative, find_field, index_of, merge_fields, only_right,
    spec_merge_fields, MergeMode,
};
use crate::syntax::{
    alternatives_of, clone_expr, clone_names, clone_var, fields_of, names_of, opt_box_term_of,
    term_of, terms_of, Alternatives, BinOp, Builtin, Const, Expr, Fields, Name, Term, V,
};
use crate::typed::{
    clone_typed, spec_as_const, spec_get_type, spec_shift_typed, typed_of, value_of, TypedTerm,
    TypedValue,
};
use crate::var::{shift, spec_shift, spec_subst_shift, subst_shift};

verus! {

/// What checking gives: a typed value, or the first failure.
pub type Checked = Result<TypedTerm, Failure>;

/// A list of labelled typed values.
pub type TypedFields = Seq<(Name, TypedTerm)>;

/// The failure `m` in the context `ctx`.
pub open spec fn fail(ctx: Bindings, m: Message) -> Failure {
    Failure { message: m, context: ctx }
}

/// The failure of a spent budget.
pub open spec fn spent(ctx: Bindings) -> Failure {
    fail(ctx, Message::BudgetExhausted)
}

/// The universe of a function type from `a` to `b`: `Type` where the
/// result is a term, and the greater of the two otherwise.
pub open spec fn spec_function_check(a: Const, b: Const) -> Const {
    if b == Const::Type {
        Const::Type
    } else if a == Const::Sort || b == Const::Sort {
        Const::Sort
    } else {
        Const::Kind
    }
}

/// The type of a typed value; the failure `Sort`, in the empty context,
/// for the universe that has none, and `Untyped` for a value that was not
/// checked.
pub open spec fn spec_type_of(tv: TypedTerm) -> Checked {
    match spec_get_type(tv) {
        Some(t) => Ok(t),
        None => if tv is Untyped {
            Err(fail(Seq::empty(), Message::Untyped))
        } else {
            Err(fail(Seq::empty(), Message::Sort))
        },
    }
}

/// The universe that `tv` is, if it is one.
pub open spec fn spec_const_of(f: nat, ctx: Bindings, tv: TypedTerm) -> Result<
    Option<Const>,
    Failure,
> {
    match spec_as_const(f, tv) {
        Some(k) => Ok(k),
        None => Err(spent(ctx)),
    }
}

/// The universe that the type of `tv` is, if it is one.
pub open spec fn spec_universe_of(f: nat, ctx: Bindings, tv: TypedTerm) -> Result<
    Option<Const>,
    Failure,
> {
    match spec_type_of(tv) {
        Ok(t) => spec_const_of(f, ctx, t),
        Err(e) => Err(e),
    }
}

/// Whether the terms `a` and `b` are equal.
pub open spec fn spec_same(f: nat, ctx: Bindings, a: Term, b: Term) -> Result<bool, Failure> {
    match spec_equal(f, a, b) {
        Some(r) => Ok(r),
        None => Err(spent(ctx)),
    }
}

/// Whether the types of `a` and of `b` are equal.
pub open spec fn spec_same_type(f: nat, ctx: Bindings, a: TypedTerm, b: TypedTerm) -> Result<
    bool,
    Failure,
> {
    match (spec_type_of(a), spec_type_of(b)) {
        (Ok(ta), Ok(tb)) => spec_same(f, ctx, value_of(ta), value_of(tb)),
        (Err(e), _) => Err(e),
        (_, Err(e)) => Err(e),
    }
}

/// Whether the type of `a` is the type that the built-in `b` names.
pub open spec fn spec_has_type(f: nat, ctx: Bindings, a: TypedTerm, b: Builtin) -> Result<
    bool,
    Failure,
> {
    match spec_type_of(a) {
        Ok(ta) => spec_same(f, ctx, value_of(ta), Term::Builtin(b)),
        Err(e) => Err(e),
    }
}

/// The type that the built-in `b` names, as a typed value of universe
/// `Type`.
pub open spec fn simple_type(b: Builtin) -> TypedTerm {
    TypedTerm::Typed(Term::Builtin(b), Box::new(TypedTerm::Const(Const::Type)))
}

/// The value `v` with the type `t`.
pub open spec fn typed(v: Term, t: TypedTerm) -> TypedTerm {
    TypedTerm::Typed(v, Box::new(t))
}

/// The values of a list of labelled typed values.
pub open spec fn values_of(kts: TypedFields) -> Fields {
    Seq::new(kts.len(), |i: int| (kts[i].0, value_of(kts[i].1)))
}

/// The values of a list of typed values.
pub open spec fn term_values_of(ts: Seq<TypedTerm>) -> Seq<Term> {
    Seq::new(ts.len(), |i: int| value_of(ts[i]))
}

/// The values of a list of typed alternatives.
pub open spec fn alt_values_of(kts: Seq<(Name, Option<TypedTerm>)>) -> Alternatives {
    Seq::new(
        kts.len(),
        |i: int|
            (
                kts[i].0,
                match kts[i].1 {
                    Some(t) => Some(value_of(t)),
                    None => None,
                },
            ),
    )
}

/// The function type `∀(x : tx) → te`: both must be types, that is, have
/// a universe for their type.
#[verifier::opaque]
pub open spec fn spec_tck_pi_type(f: nat, ctx: Bindings, x: Name, tx: TypedTerm, te: TypedTerm) -> Checked {
    match spec_universe_of(f, ctx, tx) {
        Err(e) => Err(e),
        Ok(None) => Err(fail(ctx, Message::InvalidInputType(value_of(tx)))),
        Ok(Some(ka)) => match spec_universe_of(f, ctx, te) {
            Err(e) => Err(e),
            Ok(None) => match (spec_insert_type(ctx, x, tx), spec_type_of(te)) {
                (Some(ctx2), Ok(tte)) => Err(fail(ctx2, Message::InvalidOutputType(value_of(tte)))),
                (_, Err(e)) => Err(e),
                (None, _) => Err(spent(ctx)),
            },
            Ok(Some(kb)) => Ok(
                typed(
                    Term::Pi(x, Box::new(value_of(tx)), Box::new(value_of(te))),
                    TypedTerm::Const(spec_function_check(ka, kb)),
                ),
            ),
        },
    }
}

/// The universe that the first `n` entries of a record type share: `None`
/// where there is none yet. An entry whose type is no universe, or another
/// one than that of the entries before it, fails; so does an entry whose
/// label an earlier entry has.
pub open spec fn spec_record_kind(f: nat, ctx: Bindings, kts: TypedFields, n: nat) -> Result<
    Option<Const>,
    Failure,
>
    decreases n,
{
    if n == 0 || n > kts.len() {
        Ok(None)
    } else {
        match spec_record_kind(f, ctx, kts, (n - 1) as nat) {
            Err(e) => Err(e),
            Ok(k) => match spec_universe_of(f, ctx, kts[n - 1].1) {
                Err(e) => Err(e),
                Ok(k2) => if k2 is None || (k is Some && k != k2) {
                    Err(fail(ctx, Message::InvalidFieldType(kts[n - 1].0, value_of(kts[n - 1].1))))
                } else if index_of(kts, kts[n - 1].0, 0) != Some((n - 1) as nat) {
                    Err(fail(ctx, Message::RecordTypeDuplicateField))
                } else {
                    Ok(k2)
                },
            },
        }
    }
}

/// The universe of a record type without entries, and of any that shares
/// none.
pub open spec fn kind_or_type(k: Option<Const>) -> Const {
    match k {
        Some(c) => c,
        None => Const::Type,
    }
}

/// The record type of the entries `kts`.
#[verifier::opaque]
pub open spec fn spec_tck_record_type(f: nat, ctx: Bindings, kts: TypedFields) -> Checked {
    match spec_record_kind(f, ctx, kts, kts.len()) {
        Err(e) => Err(e),
        Ok(k) => Ok(typed(Term::RecordType(values_of(kts)), TypedTerm::Const(kind_or_type(k)))),
    }
}

/// As `spec_record_kind`, for the alternatives of a union type: those
/// without a type do not count.
pub open spec fn spec_union_kind(
    f: nat,
    ctx: Bindings,
    kts: Seq<(Name, Option<TypedTerm>)>,
    n: nat,
) -> Result<Option<Const>, Failure>
    decreases n,
{
    if n == 0 || n > kts.len() {
        Ok(None)
    } else {
        match spec_union_kind(f, ctx, kts, (n - 1) as nat) {
            Err(e) => Err(e),
            Ok(k) => match kts[n - 1].1 {
                Some(t) => match spec_universe_of(f, ctx, t) {
                    Err(e) => Err(e),
                    Ok(k2) => if k2 is None || (k is Some && k != k2) {
                        Err(fail(ctx, Message::InvalidFieldType(kts[n - 1].0, value_of(t))))
                    } else if index_of(kts, kts[n - 1].0, 0) != Some((n - 1) as nat) {
                        Err(fail(ctx, Message::UnionTypeDuplicateField))
                    } else {
                        Ok(k2)
                    },
                },
                None => if index_of(kts, kts[n - 1].0, 0) != Some((n - 1) as nat) {
                    Err(fail(ctx, Message::UnionTypeDuplicateField))
                } else {
                    Ok(k)
                },
            },
        }
    }
}

/// The union type of the alternatives `kts`.
#[verifier::opaque]
pub open spec fn spec_tck_union_type(f: nat, ctx: Bindings, kts: Seq<(Name, Option<TypedTerm>)>) -> Checked {
    match spec_union_kind(f, ctx, kts, kts.len()) {
        Err(e) => Err(e),
        Ok(k) => Ok(typed(Term::UnionType(alt_values_of(kts)), TypedTerm::Const(kind_or_type(k)))),
    }
}

/// The type of `x : t`: that of `x`, which must equal `t`.
#[verifier::opaque]
pub open spec fn spec_tck_annot(f: nat, ctx: Bindings, x: TypedTerm, t: TypedTerm) -> Checked {
    match spec_type_of(x) {
        Err(e) => Err(e),
        Ok(tx) => match spec_same(f, ctx, value_of(t), value_of(tx)) {
            Err(e) => Err(e),
            Ok(false) => Err(fail(ctx, Message::AnnotMismatch(value_of(x), value_of(t)))),
            Ok(true) => Ok(tx),
        },
    }
}

/// The type of `assert : t`: `t`, which must be an equivalence of two
/// equal terms.
#[verifier::opaque]
pub open spec fn spec_tck_assert(f: nat, ctx: Bindings, t: TypedTerm) -> Checked {
    match spec_whnf(f, value_of(t)) {
        None => Err(spent(ctx)),
        Some(Term::BinOp(BinOp::Equivalence, x, y)) => match spec_same(f, ctx, *x, *y) {
            Err(e) => Err(e),
            Ok(true) => Ok(t),
            Ok(false) => Err(fail(ctx, Message::AssertMismatch(*x, *y))),
        },
        Some(_) => Err(fail(ctx, Message::AssertMustTakeEquivalence)),
    }
}

/// Whether the type of the type of `y` is `Type`: whether `y` is a term.
pub open spec fn spec_is_term(f: nat, ctx: Bindings, y: TypedTerm) -> Result<bool, Failure> {
    match spec_type_of(y) {
        Err(e) => Err(e),
        Ok(ty) => match spec_universe_of(f, ctx, ty) {
            Err(e) => Err(e),
            Ok(k) => Ok(k == Some(Const::Type)),
        },
    }
}

/// The type of `if x then y else z`: that of `y`. `x` is a `Bool`, and the
/// branches are terms of one type.
#[verifier::opaque]
pub open spec fn spec_tck_if(f: nat, ctx: Bindings, x: TypedTerm, y: TypedTerm, z: TypedTerm) -> Checked {
    match spec_has_type(f, ctx, x, Builtin::Bool) {
        Err(e) => Err(e),
        Ok(false) => Err(fail(ctx, Message::InvalidPredicate(value_of(x)))),
        Ok(true) => match spec_is_term(f, ctx, y) {
            Err(e) => Err(e),
            Ok(false) => Err(fail(ctx, Message::IfBranchMustBeTerm(true, value_of(y)))),
            Ok(true) => match spec_is_term(f, ctx, z) {
                Err(e) => Err(e),
                Ok(false) => Err(fail(ctx, Message::IfBranchMustBeTerm(false, value_of(z)))),
                Ok(true) => match spec_same_type(f, ctx, y, z) {
                    Err(e) => Err(e),
                    Ok(false) => Err(
                        fail(ctx, Message::IfBranchMismatch(value_of(y), value_of(z))),
                    ),
                    Ok(true) => spec_type_of(y),
                },
            },
        },
    }
}

/// Whether `w` is `List` applied to one argument.
pub open spec fn is_list_type(w: Term) -> bool {
    w matches Term::App(l, _) && *l == Term::Builtin(Builtin::List)
}

/// The type of `[] : t`: `t`, which must be a list type.
#[verifier::opaque]
pub open spec fn spec_tck_empty_list(f: nat, ctx: Bindings, t: TypedTerm) -> Checked {
    match spec_whnf(f, value_of(t)) {
        None => Err(spent(ctx)),
        Some(w) => if is_list_type(w) {
            Ok(t)
        } else {
            Err(fail(ctx, Message::InvalidListType(value_of(t))))
        },
    }
}

/// That each of the first `n` of `xs` has the type of `x`.
pub open spec fn spec_same_elements(f: nat, ctx: Bindings, x: TypedTerm, xs: Seq<TypedTerm>, n: nat) -> Result<
    (),
    Failure,
>
    decreases n,
{
    if n == 0 || n > xs.len() {
        Ok(())
    } else {
        match spec_same_elements(f, ctx, x, xs, (n - 1) as nat) {
            Err(e) => Err(e),
            Ok(_) => match spec_same_type(f, ctx, x, xs[n - 1]) {
                Err(e) => Err(e),
                Ok(true) => Ok(()),
                Ok(false) => match spec_type_of(x) {
                    Ok(tx) => Err(
                        fail(
                            ctx,
                            Message::InvalidListElement(n, value_of(tx), value_of(xs[n - 1])),
                        ),
                    ),
                    Err(e) => Err(e),
                },
            },
        }
    }
}

/// `c t`, of universe `Type`, for an element type `t` that is of universe
/// `Type`; the failure `m` for another.
pub open spec fn spec_container(f: nat, ctx: Bindings, c: Builtin, t: TypedTerm, m: Message) -> Checked {
    match spec_universe_of(f, ctx, t) {
        Err(e) => Err(e),
        Ok(k) => if k == Some(Const::Type) {
            Ok(typed(app(Term::Builtin(c), value_of(t)), TypedTerm::Const(Const::Type)))
        } else {
            Err(fail(ctx, m))
        },
    }
}

/// The type of the list of `x` and `xs`: `List t`, where all have the type
/// `t`, of universe `Type`.
#[verifier::opaque]
pub open spec fn spec_tck_list(f: nat, ctx: Bindings, x: TypedTerm, xs: Seq<TypedTerm>) -> Checked {
    match spec_same_elements(f, ctx, x, xs, xs.len()) {
        Err(e) => Err(e),
        Ok(_) => match spec_type_of(x) {
            Err(e) => Err(e),
            Ok(t) => spec_container(
                f,
                ctx,
                Builtin::List,
                t,
                Message::InvalidListType(value_of(t)),
            ),
        },
    }
}

/// The type of `Some x`: `Optional t`, for `x` of type `t`, of universe
/// `Type`.
#[verifier::opaque]
pub open spec fn spec_tck_some(f: nat, ctx: Bindings, x: TypedTerm) -> Checked {
    match spec_type_of(x) {
        Err(e) => Err(e),
        Ok(t) => spec_container(
            f,
            ctx,
            Builtin::Optional,
            t,
            Message::InvalidOptionalType(value_of(t)),
        ),
    }
}

/// The types of the first `n` of a list of typed fields.
pub open spec fn spec_types_of_fields(kvs: TypedFields, n: nat) -> Result<TypedFields, Failure>
    decreases n,
{
    if n == 0 || n > kvs.len() {
        Ok(Seq::empty())
    } else {
        match spec_types_of_fields(kvs, (n - 1) as nat) {
            Err(e) => Err(e),
            Ok(done) => match spec_type_of(kvs[n - 1].1) {
                Err(e) => Err(e),
                Ok(t) => Ok(done.push((kvs[n - 1].0, t))),
            },
        }
    }
}

/// The type of a record literal: the record type of the types of its
/// fields.
#[verifier::opaque]
pub open spec fn spec_tck_record_lit(f: nat, ctx: Bindings, kvs: TypedFields) -> Checked {
    match spec_types_of_fields(kvs, kvs.len()) {
        Err(e) => Err(e),
        Ok(kts) => spec_tck_record_type(f, ctx, kts),
    }
}

/// That each of the first `n` interpolations of a text literal is a
/// `Text`.
pub open spec fn spec_text_chunks(f: nat, ctx: Bindings, chunks: TypedFields, n: nat) -> Result<
    (),
    Failure,
>
    decreases n,
{
    if n == 0 || n > chunks.len() {
        Ok(())
    } else {
        match spec_text_chunks(f, ctx, chunks, (n - 1) as nat) {
            Err(e) => Err(e),
            Ok(_) => match spec_has_type(f, ctx, chunks[n - 1].1, Builtin::Text) {
                Err(e) => Err(e),
                Ok(true) => Ok(()),
                Ok(false) => Err(
                    fail(ctx, Message::InvalidTextInterpolation(value_of(chunks[n - 1].1))),
                ),
            },
        }
    }
}

/// The type of a text literal: `Text`.
#[verifier::opaque]
pub open spec fn spec_tck_text(f: nat, ctx: Bindings, chunks: TypedFields) -> Checked {
    match spec_text_chunks(f, ctx, chunks, chunks.len()) {
        Err(e) => Err(e),
        Ok(_) => Ok(simple_type(Builtin::Text)),
    }
}

/// The type of the operands of an operator on `Bool`, `Natural` or `Text`.
pub open spec fn operand_type(o: BinOp) -> Builtin {
    match o {
        BinOp::NaturalPlus | BinOp::NaturalTimes => Builtin::Natural,
        BinOp::TextAppend => Builtin::Text,
        _ => Builtin::Bool,
    }
}

/// The type of `l o r` for an operator on `Bool`, `Natural` or `Text`:
/// that of its operands, which both must have.
#[verifier::opaque]
pub open spec fn spec_tck_simple_op(f: nat, ctx: Bindings, o: BinOp, l: TypedTerm, r: TypedTerm) -> Checked {
    match spec_has_type(f, ctx, l, operand_type(o)) {
        Err(e) => Err(e),
        Ok(false) => Err(fail(ctx, Message::BinOpTypeMismatch(o, value_of(l)))),
        Ok(true) => match spec_has_type(f, ctx, r, operand_type(o)) {
            Err(e) => Err(e),
            Ok(false) => Err(fail(ctx, Message::BinOpTypeMismatch(o, value_of(r)))),
            Ok(true) => Ok(simple_type(operand_type(o))),
        },
    }
}

/// The type of `l # r`: that of `l`, a list type, which `r` must have
/// too.
#[verifier::opaque]
pub open spec fn spec_tck_list_append(f: nat, ctx: Bindings, l: TypedTerm, r: TypedTerm) -> Checked {
    match spec_type_of(l) {
        Err(e) => Err(e),
        Ok(tl) => match spec_whnf(f, value_of(tl)) {
            None => Err(spent(ctx)),
            Some(w) => if is_list_type(w) {
                match spec_same_type(f, ctx, l, r) {
                    Err(e) => Err(e),
                    Ok(false) => Err(
                        fail(ctx, Message::BinOpTypeMismatch(BinOp::ListAppend, value_of(r))),
                    ),
                    Ok(true) => Ok(tl),
                }
            } else {
                Err(fail(ctx, Message::BinOpTypeMismatch(BinOp::ListAppend, value_of(l))))
            },
        },
    }
}

/// The type of `l ≡ r`: `Type`, for two terms of one type.
#[verifier::opaque]
pub open spec fn spec_tck_equivalence(f: nat, ctx: Bindings, l: TypedTerm, r: TypedTerm) -> Checked {
    match spec_is_term(f, ctx, l) {
        Err(e) => Err(e),
        Ok(false) => Err(fail(ctx, Message::EquivalenceArgumentMustBeTerm(true, value_of(l)))),
        Ok(true) => match spec_is_term(f, ctx, r) {
            Err(e) => Err(e),
            Ok(false) => Err(
                fail(ctx, Message::EquivalenceArgumentMustBeTerm(false, value_of(r))),
            ),
            Ok(true) => match spec_same_type(f, ctx, l, r) {
                Err(e) => Err(e),
                Ok(false) => Err(
                    fail(ctx, Message::EquivalenceTypeMismatch(value_of(r), value_of(l))),
                ),
                Ok(true) => Ok(TypedTerm::Const(Const::Type)),
            },
        },
    }
}

/// The fields of the record type that `t` reduces to, if it reduces to
/// one.
pub open spec fn spec_record_fields(f: nat, ctx: Bindings, t: Term) -> Result<Option<Fields>, Failure> {
    match spec_whnf(f, t) {
        None => Err(spent(ctx)),
        Some(Term::RecordType(kts)) => Ok(Some(kts)),
        Some(_) => Ok(None),
    }
}

/// The alternatives of the union type that `t` reduces to, if it reduces
/// to one.
pub open spec fn spec_union_alternatives(f: nat, ctx: Bindings, t: Term) -> Result<
    Option<Alternatives>,
    Failure,
> {
    match spec_whnf(f, t) {
        None => Err(spent(ctx)),
        Some(Term::UnionType(kts)) => Ok(Some(kts)),
        Some(_) => Ok(None),
    }
}

/// The type of `r.{ ls }`: the record type of the fields of the type of
/// `r` that `ls` names, in the universe of that type.
#[verifier::opaque]
pub open spec fn spec_tck_projection(f: nat, ctx: Bindings, r: TypedTerm, ls: Seq<Name>) -> Checked {
    match spec_type_of(r) {
        Err(e) => Err(e),
        Ok(tr) => match spec_record_fields(f, ctx, value_of(tr)) {
            Err(e) => Err(e),
            Ok(None) => Err(fail(ctx, Message::ProjectionMustBeRecord)),
            Ok(Some(kts)) => match crate::record::spec_project(kts, ls, ls.len()) {
                None => Err(fail(ctx, Message::ProjectionMissingEntry)),
                Some(sel) => match spec_type_of(tr) {
                    Err(e) => Err(e),
                    Ok(k) => Ok(typed(Term::RecordType(sel), k)),
                },
            },
        },
    }
}

/// The record types of the two operands of a record merge, which must be
/// of one universe.
#[verifier::opaque]
pub open spec fn spec_merge_operands(f: nat, ctx: Bindings, l: TypedTerm, r: TypedTerm) -> Result<
    (Fields, Fields),
    Failure,
> {
    match (spec_type_of(l), spec_type_of(r)) {
        (Err(e), _) => Err(e),
        (_, Err(e)) => Err(e),
        (Ok(tl), Ok(tr)) => match spec_same_type(f, ctx, tl, tr) {
            Err(e) => Err(e),
            Ok(false) => Err(fail(ctx, Message::RecordMismatch(value_of(l), value_of(r)))),
            Ok(true) => match spec_record_fields(f, ctx, value_of(tl)) {
                Err(e) => Err(e),
                Ok(None) => Err(fail(ctx, Message::MustCombineRecord(true, value_of(l)))),
                Ok(Some(kl)) => match spec_record_fields(f, ctx, value_of(tr)) {
                    Err(e) => Err(e),
                    Ok(None) => Err(fail(ctx, Message::MustCombineRecord(false, value_of(r)))),
                    Ok(Some(kr)) => Ok((kl, kr)),
                },
            },
        },
    }
}

/// The first `n` fields of `kl`, each joined with the field of `kr` that
/// has its label: both must then be record types, which are joined in
/// turn, and anything else is a collision.
pub open spec fn spec_combine_left(f: nat, ctx: Bindings, kl: Fields, kr: Fields, n: nat) -> Result<
    Fields,
    Failure,
>
    decreases f, n,
{
    if n == 0 || n > kl.len() {
        Ok(Seq::empty())
    } else {
        match spec_combine_left(f, ctx, kl, kr, (n - 1) as nat) {
            Err(e) => Err(e),
            Ok(done) => match index_of(kr, kl[n - 1].0, 0) {
                None => Ok(done.push(kl[n - 1])),
                Some(j) => if f == 0 {
                    Err(spent(ctx))
                } else {
                    match (
                        spec_record_fields(f, ctx, kl[n - 1].1),
                        spec_record_fields(f, ctx, kr[j as int].1),
                    ) {
                        (Err(e), _) => Err(e),
                        (_, Err(e)) => Err(e),
                        (Ok(Some(a)), Ok(Some(b))) => match spec_combine(
                            (f - 1) as nat,
                            ctx,
                            a,
                            b,
                        ) {
                            Err(e) => Err(e),
                            Ok(c) => Ok(done.push((kl[n - 1].0, Term::RecordType(c)))),
                        },
                        _ => Err(fail(ctx, Message::FieldCollision(kl[n - 1].0))),
                    }
                },
            },
        }
    }
}

/// The recursive join of two record types: the fields of `kl`, each
/// joined with its partner in `kr` where it has one, then the fields that
/// only `kr` has.
pub open spec fn spec_combine(f: nat, ctx: Bindings, kl: Fields, kr: Fields) -> Result<Fields, Failure>
    decreases f, kl.len() + 1,
{
    match spec_combine_left(f, ctx, kl, kr, kl.len()) {
        Err(e) => Err(e),
        Ok(left) => Ok(left + crate::record::spec_merge_right(kl, kr, kr.len())),
    }
}

/// The type of `l ⩓ r`: the universe of both, which must be record types
/// that join without a collision.
#[verifier::opaque]
pub open spec fn spec_tck_combine_types(f: nat, ctx: Bindings, l: TypedTerm, r: TypedTerm) -> Checked {
    match spec_universe_of(f, ctx, l) {
        Err(e) => Err(e),
        Ok(None) => Err(
            fail(ctx, Message::RecordTypeMergeRequiresRecordType(true, value_of(l))),
        ),
        Ok(Some(kl)) => match spec_universe_of(f, ctx, r) {
            Err(e) => Err(e),
            Ok(None) => Err(
                fail(ctx, Message::RecordTypeMergeRequiresRecordType(false, value_of(r))),
            ),
            Ok(Some(kr)) => if kl != kr {
                Err(fail(ctx, Message::RecordTypeMismatch(kl, kr, value_of(l), value_of(r))))
            } else {
                match spec_record_fields(f, ctx, value_of(l)) {
                    Err(e) => Err(e),
                    Ok(None) => Err(
                        fail(ctx, Message::RecordTypeMergeRequiresRecordType(true, value_of(l))),
                    ),
                    Ok(Some(fl)) => match spec_record_fields(f, ctx, value_of(r)) {
                        Err(e) => Err(e),
                        Ok(None) => Err(
                            fail(
                                ctx,
                                Message::RecordTypeMergeRequiresRecordType(false, value_of(r)),
                            ),
                        ),
                        Ok(Some(fr)) => match spec_combine(f, ctx, fl, fr) {
                            Err(e) => Err(e),
                            Ok(_) => Ok(TypedTerm::Const(kl)),
                        },
                    },
                }
            },
        },
    }
}

/// What the handler of type `handler` gives for an alternative that holds
/// `variant`: the result of the function type that `handler` must be, from
/// `variant`, and not depending on its argument. For an alternative that
/// holds nothing, `handler` itself.
#[verifier::opaque]
pub open spec fn spec_handler_result(f: nat, ctx: Bindings, handler: Term, variant: Option<Term>) -> Result<
    Term,
    Failure,
> {
    match variant {
        None => Ok(handler),
        Some(vt) => match spec_whnf(f, handler) {
            None => Err(spent(ctx)),
            Some(Term::Pi(x, tx, tb)) => match spec_same(f, ctx, vt, *tx) {
                Err(e) => Err(e),
                Ok(false) => Err(fail(ctx, Message::TypeMismatch(handler, *tx, vt))),
                Ok(true) => match spec_shift(-1, x, 0, *tb) {
                    Some(res) => Ok(res),
                    None => Err(fail(ctx, Message::MergeHandlerReturnTypeMustNotBeDependent)),
                },
            },
            Some(_) => Err(fail(ctx, Message::NotAFunction(handler))),
        },
    }
}

/// The type that the first `n` handlers give: `None` while there is no
/// handler, and the result of the first one after that, which the result
/// of every other must equal. A handler for no alternative fails.
pub open spec fn spec_handlers(f: nat, ctx: Bindings, hs: Fields, vs: Alternatives, n: nat) -> Result<
    Option<Term>,
    Failure,
>
    decreases n,
{
    if n == 0 || n > hs.len() {
        Ok(None)
    } else {
        match spec_handlers(f, ctx, hs, vs, (n - 1) as nat) {
            Err(e) => Err(e),
            Ok(inferred) => match index_of(vs, hs[n - 1].0, 0) {
                None => Err(fail(ctx, Message::MergeHandlerMissingVariant(hs[n - 1].0))),
                Some(j) => match spec_handler_result(f, ctx, hs[n - 1].1, vs[j as int].1) {
                    Err(e) => Err(e),
                    Ok(res) => match inferred {
                        None => Ok(Some(res)),
                        Some(t) => match spec_same(f, ctx, t, res) {
                            Err(e) => Err(e),
                            Ok(true) => Ok(Some(t)),
                            Ok(false) => Err(fail(ctx, Message::MergeHandlerTypeMismatch)),
                        },
                    },
                },
            },
        }
    }
}

/// That each of the first `n` alternatives has a handler.
pub open spec fn spec_all_handled(ctx: Bindings, hs: Fields, vs: Alternatives, n: nat) -> Result<
    (),
    Failure,
>
    decreases n,
{
    if n == 0 || n > vs.len() {
        Ok(())
    } else {
        match spec_all_handled(ctx, hs, vs, (n - 1) as nat) {
            Err(e) => Err(e),
            Ok(_) => match index_of(hs, vs[n - 1].0, 0) {
                Some(_) => Ok(()),
                None => Err(fail(ctx, Message::MergeVariantMissingHandler(vs[n - 1].0))),
            },
        }
    }
}

/// The handlers of a `merge` and the alternatives that they are for, with
/// the type that the handlers give.
#[verifier::opaque]
pub open spec fn spec_merge_parts(f: nat, ctx: Bindings, record: TypedTerm, union: TypedTerm) -> Result<
    Option<Term>,
    Failure,
> {
    match spec_type_of(record) {
        Err(e) => Err(e),
        Ok(tr) => match spec_record_fields(f, ctx, value_of(tr)) {
            Err(e) => Err(e),
            Ok(None) => Err(fail(ctx, Message::Merge1ArgMustBeRecord(value_of(record)))),
            Ok(Some(hs)) => match spec_type_of(union) {
                Err(e) => Err(e),
                Ok(tu) => match spec_union_alternatives(f, ctx, value_of(tu)) {
                    Err(e) => Err(e),
                    Ok(None) => Err(fail(ctx, Message::Merge2ArgMustBeUnion(value_of(union)))),
                    Ok(Some(vs)) => match spec_handlers(f, ctx, hs, vs, hs.len()) {
                        Err(e) => Err(e),
                        Ok(inferred) => match spec_all_handled(ctx, hs, vs, vs.len()) {
                            Err(e) => Err(e),
                            Ok(_) => Ok(inferred),
                        },
                    },
                },
            },
        },
    }
}

/// The type of `merge record union : annot`: what the handlers give,
/// which the annotation must equal where there is one; the annotation
/// where there is no handler.
pub open spec fn spec_tck_merge(
    f: nat,
    ctx: Bindings,
    record: TypedTerm,
    union: TypedTerm,
    annot: Option<TypedTerm>,
) -> Checked
    decreases f, 1nat, 0nat,
{
    match spec_merge_parts(f, ctx, record, union) {
        Err(e) => Err(e),
        Ok(inferred) => match (inferred, annot) {
            (Some(t1), Some(t2)) => match spec_same(f, ctx, t1, value_of(t2)) {
                Err(e) => Err(e),
                Ok(false) => Err(fail(ctx, Message::MergeAnnotMismatch)),
                Ok(true) => Ok(t2),
            },
            (Some(t), None) => spec_mktype(f, ctx, t),
            (None, Some(t)) => Ok(t),
            (None, None) => Err(fail(ctx, Message::MergeEmptyNeedsAnnotation)),
        },
    }
}

/// The type of `g a`: the result of the function type that `g` has, with
/// `a`, which must have the type of its argument, in place of the
/// variable.
pub open spec fn spec_tck_app(f: nat, ctx: Bindings, g: TypedTerm, a: TypedTerm) -> Checked
    decreases f, 1nat, 0nat,
{
    match spec_type_of(g) {
        Err(e) => Err(e),
        Ok(tg) => match spec_whnf(f, value_of(tg)) {
            None => Err(spent(ctx)),
            Some(Term::Pi(x, tx, tb)) => match spec_type_of(a) {
                Err(e) => Err(e),
                Ok(ta) => match spec_same(f, ctx, value_of(ta), *tx) {
                    Err(e) => Err(e),
                    Ok(false) => Err(
                        fail(ctx, Message::TypeMismatch(value_of(g), *tx, value_of(a))),
                    ),
                    Ok(true) => match spec_subst_shift(x, 0, value_of(a), *tb) {
                        None => Err(spent(ctx)),
                        Some(res) => spec_mktype(f, ctx, res),
                    },
                },
            },
            Some(_) => Err(fail(ctx, Message::NotAFunction(value_of(g)))),
        },
    }
}

/// The type of `r.x`. Where `r` has a record type, the type of its field
/// `x`. Otherwise `r` must be a union type: for an alternative `x` that
/// holds a `t`, the type of the constructor, `t → r`; for one that holds
/// nothing, `r` itself.
pub open spec fn spec_tck_field(f: nat, ctx: Bindings, r: TypedTerm, x: Name) -> Checked
    decreases f, 1nat, 0nat,
{
    match spec_type_of(r) {
        Err(e) => Err(e),
        Ok(tr) => match spec_record_fields(f, ctx, value_of(tr)) {
            Err(e) => Err(e),
            Ok(Some(kts)) => match index_of(kts, x, 0) {
                Some(i) => spec_mktype(f, ctx, kts[i as int].1),
                None => Err(fail(ctx, Message::MissingRecordField(x, value_of(r)))),
            },
            Ok(None) => match spec_union_alternatives(f, ctx, value_of(r)) {
                Err(e) => Err(e),
                Ok(None) => Err(fail(ctx, Message::NotARecord(x, value_of(r)))),
                Ok(Some(kts)) => match index_of(kts, x, 0) {
                    None => Err(fail(ctx, Message::MissingUnionField(x, value_of(r)))),
                    Some(i) => match kts[i as int].1 {
                        None => Ok(r),
                        Some(t) => match spec_mktype(f, ctx, t) {
                            Err(e) => Err(e),
                            Ok(tt) => match spec_shift_typed(1, "_"@, 0, r) {
                                None => Err(spent(ctx)),
                                Some(r2) => spec_tck_pi_type(f, ctx, "_"@, tt, r2),
                            },
                        },
                    },
                },
            },
        },
    }
}

/// The type of `l ⫽ r`: the record type of the fields of both, those of
/// `r` standing where both have one.
pub open spec fn spec_tck_prefer(f: nat, ctx: Bindings, l: TypedTerm, r: TypedTerm) -> Checked
    decreases f, 1nat, 0nat,
{
    match spec_merge_operands(f, ctx, l, r) {
        Err(e) => Err(e),
        Ok((kl, kr)) => spec_mktype(
            f,
            ctx,
            Term::RecordType(spec_merge_fields(MergeMode::Prefer, kl, kr)),
        ),
    }
}

/// The type of `l ∧ r`: the recursive join of the record types of both.
pub open spec fn spec_tck_combine(f: nat, ctx: Bindings, l: TypedTerm, r: TypedTerm) -> Checked
    decreases f, 1nat, 0nat,
{
    match spec_merge_operands(f, ctx, l, r) {
        Err(e) => Err(e),
        Ok((kl, kr)) => match spec_combine(f, ctx, kl, kr) {
            Err(e) => Err(e),
            Ok(c) => spec_mktype(f, ctx, Term::RecordType(c)),
        },
    }
}

/// The type of `l o r`.
pub open spec fn spec_tck_binop(f: nat, ctx: Bindings, o: BinOp, l: TypedTerm, r: TypedTerm) -> Checked
    decreases f, 2nat, 0nat,
{
    match o {
        BinOp::RightBiasedRecordMerge => spec_tck_prefer(f, ctx, l, r),
        BinOp::RecursiveRecordMerge => spec_tck_combine(f, ctx, l, r),
        BinOp::RecursiveRecordTypeMerge => spec_tck_combine_types(f, ctx, l, r),
        BinOp::ListAppend => spec_tck_list_append(f, ctx, l, r),
        BinOp::Equivalence => spec_tck_equivalence(f, ctx, l, r),
        _ => spec_tck_simple_op(f, ctx, o, l, r),
    }
}

/// The expression `t`, a type that a rule took out of another type,
/// checked as a typed value: in the context without the variables that
/// `let` binds, of which a value holds none.
pub open spec fn spec_mktype(f: nat, ctx: Bindings, t: Term) -> Checked
    decreases f, 0nat, 0nat,
{
    if f == 0 {
        Err(spent(ctx))
    } else {
        spec_type_with((f - 1) as nat, spec_types_only(ctx, ctx.len()), t)
    }
}

/// The first `n` of a list of labelled expressions, checked.
pub open spec fn spec_type_fields(f: nat, ctx: Bindings, fs: Fields, n: nat) -> Result<
    TypedFields,
    Failure,
>
    decreases f, 1nat, n,
{
    if n == 0 || n > fs.len() {
        Ok(Seq::empty())
    } else {
        match spec_type_fields(f, ctx, fs, (n - 1) as nat) {
            Err(e) => Err(e),
            Ok(done) => match spec_type_with(f, ctx, fs[n - 1].1) {
                Err(e) => Err(e),
                Ok(t) => Ok(done.push((fs[n - 1].0, t))),
            },
        }
    }
}

/// The first `n` of a list of expressions, checked.
pub open spec fn spec_type_terms(f: nat, ctx: Bindings, ts: Seq<Term>, n: nat) -> Result<
    Seq<TypedTerm>,
    Failure,
>
    decreases f, 1nat, n,
{
    if n == 0 || n > ts.len() {
        Ok(Seq::empty())
    } else {
        match spec_type_terms(f, ctx, ts, (n - 1) as nat) {
            Err(e) => Err(e),
            Ok(done) => match spec_type_with(f, ctx, ts[n - 1]) {
                Err(e) => Err(e),
                Ok(t) => Ok(done.push(t)),
            },
        }
    }
}

/// The first `n` alternatives of a union type, checked.
pub open spec fn spec_type_alts(f: nat, ctx: Bindings, fs: Alternatives, n: nat) -> Result<
    Seq<(Name, Option<TypedTerm>)>,
    Failure,
>
    decreases f, 1nat, n,
{
    if n == 0 || n > fs.len() {
        Ok(Seq::empty())
    } else {
        match spec_type_alts(f, ctx, fs, (n - 1) as nat) {
            Err(e) => Err(e),
            Ok(done) => match fs[n - 1].1 {
                None => Ok(done.push((fs[n - 1].0, None))),
                Some(t0) => match spec_type_with(f, ctx, t0) {
                    Err(e) => Err(e),
                    Ok(t) => Ok(done.push((fs[n - 1].0, Some(t)))),
                },
            },
        }
    }
}

/// The value `v`, whose type the rule gave as `t`.
pub open spec fn wrap(v: Term, t: Checked) -> Checked {
    match t {
        Ok(t) => Ok(typed(v, t)),
        Err(e) => Err(e),
    }
}

/// A function: its type is the function type from the type of its
/// variable to the type of its body.
pub open spec fn spec_type_lam(f: nat, ctx: Bindings, x: Name, t: Term, b: Term) -> Checked
    decreases f, 3nat, 0nat,
{
    match spec_type_with(f, ctx, t) {
        Err(e) => Err(e),
        Ok(tx) => match spec_insert_type(ctx, x, tx) {
            None => Err(spent(ctx)),
            Some(ctx2) => match spec_type_with(f, ctx2, b) {
                Err(e) => Err(e),
                Ok(tb) => match spec_type_of(tb) {
                    Err(e) => Err(e),
                    Ok(ttb) => wrap(
                        Term::Lam(x, Box::new(value_of(tx)), Box::new(value_of(tb))),
                        spec_tck_pi_type(f, ctx, x, tx, ttb),
                    ),
                },
            },
        },
    }
}

/// A function type.
pub open spec fn spec_type_pi(f: nat, ctx: Bindings, x: Name, t: Term, b: Term) -> Checked
    decreases f, 3nat, 0nat,
{
    match spec_type_with(f, ctx, t) {
        Err(e) => Err(e),
        Ok(tx) => match spec_insert_type(ctx, x, tx) {
            None => Err(spent(ctx)),
            Some(ctx2) => match spec_type_with(f, ctx2, b) {
                Err(e) => Err(e),
                Ok(tb) => spec_tck_pi_type(f, ctx, x, tx, tb),
            },
        },
    }
}

/// `let x : t = v in b`: `b`, checked with `x` bound to the value `v`,
/// which is checked against `t` where it is there.
pub open spec fn spec_type_let(f: nat, ctx: Bindings, x: Name, ot: Option<Box<Term>>, v: Term, b: Term) -> Checked
    decreases f, 3nat, 0nat,
{
    match (match ot {
        Some(t) => spec_type_with(f, ctx, Term::Annot(Box::new(v), t)),
        None => spec_type_with(f, ctx, v),
    }) {
        Err(e) => Err(e),
        Ok(tv) => spec_type_with(f, spec_insert_value(ctx, x, tv), b),
    }
}

/// An expression of one sub-expression, `a`: an assertion, an empty
/// list, `Some`, a selection or a projection. `spec_type_with` hands no
/// other over.
pub open spec fn spec_type_one(f: nat, ctx: Bindings, e: Term, a: Term) -> Checked
    decreases f, 3nat, 0nat,
{
    match spec_type_with(f, ctx, a) {
        Err(e) => Err(e),
        Ok(ta) => match e {
            Term::Assert(_) => wrap(Term::Assert(Box::new(value_of(ta))), spec_tck_assert(f, ctx, ta)),
            Term::EmptyListLit(_) => wrap(
                Term::EmptyListLit(Box::new(value_of(ta))),
                spec_tck_empty_list(f, ctx, ta),
            ),
            Term::SomeLit(_) => wrap(Term::SomeLit(Box::new(value_of(ta))), spec_tck_some(f, ctx, ta)),
            Term::Field(_, x) => wrap(
                Term::Field(Box::new(value_of(ta)), x),
                spec_tck_field(f, ctx, ta, x),
            ),
            Term::Projection(_, ls) => wrap(
                Term::Projection(Box::new(value_of(ta)), ls),
                spec_tck_projection(f, ctx, ta, ls),
            ),
            _ => Err(spent(ctx)),
        },
    }
}

/// An expression of two sub-expressions, `a` and `b`: an application,
/// an annotation or an operator. `spec_type_with` hands no other over.
pub open spec fn spec_type_two(f: nat, ctx: Bindings, e: Term, a: Term, b: Term) -> Checked
    decreases f, 3nat, 0nat,
{
    match spec_type_with(f, ctx, a) {
        Err(e) => Err(e),
        Ok(ta) => match spec_type_with(f, ctx, b) {
            Err(e) => Err(e),
            Ok(tb) => match e {
                Term::App(_, _) => wrap(app(value_of(ta), value_of(tb)), spec_tck_app(f, ctx, ta, tb)),
                Term::Annot(_, _) => wrap(
                    Term::Annot(Box::new(value_of(ta)), Box::new(value_of(tb))),
                    spec_tck_annot(f, ctx, ta, tb),
                ),
                Term::BinOp(o, _, _) => wrap(
                    Term::BinOp(o, Box::new(value_of(ta)), Box::new(value_of(tb))),
                    spec_tck_binop(f, ctx, o, ta, tb),
                ),
                _ => Err(spent(ctx)),
            },
        },
    }
}

/// `if c then a else b`
pub open spec fn spec_type_if(f: nat, ctx: Bindings, c: Term, a: Term, b: Term) -> Checked
    decreases f, 3nat, 0nat,
{
    match spec_type_with(f, ctx, c) {
        Err(e) => Err(e),
        Ok(tc) => match spec_type_with(f, ctx, a) {
            Err(e) => Err(e),
            Ok(ta) => match spec_type_with(f, ctx, b) {
                Err(e) => Err(e),
                Ok(tb) => wrap(
                    Term::BoolIf(
                        Box::new(value_of(tc)),
                        Box::new(value_of(ta)),
                        Box::new(value_of(tb)),
                    ),
                    spec_tck_if(f, ctx, tc, ta, tb),
                ),
            },
        },
    }
}

/// `merge r u : t`
pub open spec fn spec_type_merge(f: nat, ctx: Bindings, r: Term, u: Term, ot: Option<Box<Term>>) -> Checked
    decreases f, 3nat, 0nat,
{
    match spec_type_with(f, ctx, r) {
        Err(e) => Err(e),
        Ok(tr) => match spec_type_with(f, ctx, u) {
            Err(e) => Err(e),
            Ok(tu) => match ot {
                None => wrap(
                    Term::Merge(Box::new(value_of(tr)), Box::new(value_of(tu)), None),
                    spec_tck_merge(f, ctx, tr, tu, None),
                ),
                Some(t) => match spec_type_with(f, ctx, *t) {
                    Err(e) => Err(e),
                    Ok(tt) => wrap(
                        Term::Merge(
                            Box::new(value_of(tr)),
                            Box::new(value_of(tu)),
                            Some(Box::new(value_of(tt))),
                        ),
                        spec_tck_merge(f, ctx, tr, tu, Some(tt)),
                    ),
                },
            },
        },
    }
}

/// An expression that holds a list of sub-expressions: a text, a list, a
/// record type, a record or a union type. `spec_type_with` hands no other
/// over.
pub open spec fn spec_type_many(f: nat, ctx: Bindings, e: Term) -> Checked
    decreases f, 3nat, 0nat,
{
    match e {
        Term::TextLit(chunks, tail) => match spec_type_fields(f, ctx, chunks, chunks.len()) {
            Err(e) => Err(e),
            Ok(tc) => wrap(Term::TextLit(values_of(tc), tail), spec_tck_text(f, ctx, tc)),
        },
        Term::NEListLit(x, xs) => match spec_type_with(f, ctx, *x) {
            Err(e) => Err(e),
            Ok(tx) => match spec_type_terms(f, ctx, xs, xs.len()) {
                Err(e) => Err(e),
                Ok(txs) => wrap(
                    Term::NEListLit(Box::new(value_of(tx)), term_values_of(txs)),
                    spec_tck_list(f, ctx, tx, txs),
                ),
            },
        },
        Term::RecordType(fs) => match spec_type_fields(f, ctx, fs, fs.len()) {
            Err(e) => Err(e),
            Ok(kts) => spec_tck_record_type(f, ctx, kts),
        },
        Term::RecordLit(fs) => match spec_type_fields(f, ctx, fs, fs.len()) {
            Err(e) => Err(e),
            Ok(kvs) => wrap(Term::RecordLit(values_of(kvs)), spec_tck_record_lit(f, ctx, kvs)),
        },
        Term::UnionType(fs) => match spec_type_alts(f, ctx, fs, fs.len()) {
            Err(e) => Err(e),
            Ok(kts) => spec_tck_union_type(f, ctx, kts),
        },
        _ => Err(spent(ctx)),
    }
}

/// The expression `e`, checked in the context `ctx` within the budget
/// `fuel`: its value with its type, or the first failure in source order.
///
/// A universe is its own value, and `Sort` is accepted here: it is its
/// use as a term that fails. A variable is what the context holds for it.
/// A built-in has the type that the table gives, checked in turn. A
/// literal has the type that its kind names. Every other expression is
/// checked part by part, and then by its rule.
pub open spec fn spec_type_with(fuel: nat, ctx: Bindings, e: Term) -> Checked
    decreases fuel, 0nat, 0nat,
{
    if fuel == 0 {
        Err(spent(ctx))
    } else {
        let f = (fuel - 1) as nat;
        match e {
            Term::Const(c) => Ok(TypedTerm::Const(c)),
            Term::Var(x, n) => match spec_lookup(ctx, x, n as nat, ctx.len()) {
                Some(tv) => Ok(tv),
                None => Err(fail(ctx, Message::UnboundVariable(x, n))),
            },
            Term::Lam(x, t, b) => spec_type_lam(f, ctx, x, *t, *b),
            Term::Pi(x, t, b) => spec_type_pi(f, ctx, x, *t, *b),
            Term::Let(x, ot, v, b) => spec_type_let(f, ctx, x, ot, *v, *b),
            Term::Builtin(b) => wrap(e, spec_type_with(f, ctx, spec_type_of_builtin(b))),
            Term::BoolLit(_) => Ok(typed(e, simple_type(Builtin::Bool))),
            Term::NaturalLit(_) => Ok(typed(e, simple_type(Builtin::Natural))),
            Term::IntegerLit(_) => Ok(typed(e, simple_type(Builtin::Integer))),
            Term::DoubleLit(_) => Ok(typed(e, simple_type(Builtin::Double))),
            Term::Assert(a) | Term::EmptyListLit(a) | Term::SomeLit(a) | Term::Field(a, _)
            | Term::Projection(a, _) => spec_type_one(f, ctx, e, *a),
            Term::App(a, b) | Term::Annot(a, b) | Term::BinOp(_, a, b) => spec_type_two(
                f,
                ctx,
                e,
                *a,
                *b,
            ),
            Term::BoolIf(c, a, b) => spec_type_if(f, ctx, *c, *a, *b),
            Term::Merge(r, u, ot) => spec_type_merge(f, ctx, *r, *u, ot),
            Term::TextLit(_, _) | Term::NEListLit(_, _) | Term::RecordType(_) | Term::RecordLit(_)
            | Term::UnionType(_) => spec_type_many(f, ctx, e),
        }
    }
}

/// The type of the closed expression `e`: `e` checked in the empty
/// context, where it must have a type, which `Sort` has not.
pub open spec fn spec_typecheck(fuel: nat, e: Term) -> Checked {
    match spec_type_with(fuel, Seq::empty(), e) {
        Err(e) => Err(e),
        Ok(tv) => match spec_type_of(tv) {
            Err(e) => Err(e),
            Ok(_) => Ok(tv),
        },
    }
}

/// The type of `e`, checked against the type `t`.
pub open spec fn spec_typecheck_with(fuel: nat, e: Term, t: Term) -> Checked {
    spec_typecheck(fuel, Term::Annot(Box::new(e), Box::new(t)))
}

/// The executable result `r` is what the model gives.
pub open spec fn checked(r: Result<TypedValue, TypeError>, s: Checked) -> bool {
    match r {
        Ok(tv) => s == Ok::<TypedTerm, Failure>(tv@),
        Err(e) => s == Err::<TypedTerm, Failure>(e@),
    }
}

/// The executable result `r`, of a plain value, is what the model gives.
pub open spec fn answers<T>(r: Result<T, TypeError>, s: Result<T, Failure>) -> bool {
    match r {
        Ok(v) => s == Ok::<T, Failure>(v),
        Err(e) => s == Err::<T, Failure>(e@),
    }
}

/// The model of a list of labelled typed values.
pub open spec fn typed_fields_of(v: Vec<(String, TypedValue)>) -> TypedFields {
    Seq::new(v.len() as nat, |i: int| (v[i].0@, v[i].1@))
}

/// The model of a list of typed values.
pub open spec fn typed_terms_of(v: Vec<TypedValue>) -> Seq<TypedTerm> {
    Seq::new(v.len() as nat, |i: int| v[i]@)
}

/// The model of a list of typed alternatives.
pub open spec fn typed_alts_of(v: Vec<(String, Option<TypedValue>)>) -> Seq<
    (Name, Option<TypedTerm>),
> {
    Seq::new(
        v.len() as nat,
        |i: int|
            (
                v[i].0@,
                match v[i].1 {
                    Some(t) => Some(t@),
                    None => None,
                },
            ),
    )
}

/// The universe of a function type from the universe `a` to `b`.
pub fn function_check(a: Const, b: Const) -> (r: Const)
    ensures
        r == spec_function_check(a, b),
{
    match (a, b) {
        (_, Const::Type) => Const::Type,
        (Const::Sort, _) => Const::Sort,
        (_, Const::Sort) => Const::Sort,
        _ => Const::Kind,
    }
}

fn err<T>(ctx: &TypecheckContext, m: TypeMessage) -> (r: Result<T, TypeError>)
    ensures
        r matches Err(e) && e@ == fail(context_of(*ctx), m@),
{
    Err(TypeError::new(ctx, m))
}

/// The type of a typed value.
pub fn type_of_value(tv: &TypedValue) -> (r: Result<TypedValue, TypeError>)
    ensures
        checked(r, spec_type_of(tv@)),
{
    match tv.get_type() {
        Some(t) => Ok(t),
        None => match tv {
            TypedValue::Untyped(_) => err(&TypecheckContext::new(), TypeMessage::Untyped),
            _ => err(&TypecheckContext::new(), TypeMessage::Sort),
        },
    }
}

fn const_of(f: u64, ctx: &TypecheckContext, tv: &TypedValue) -> (r: Result<Option<Const>, TypeError>)
    ensures
        answers(r, spec_const_of(f as nat, context_of(*ctx), tv@)),
{
    match tv.as_const(f) {
        Some(k) => Ok(k),
        None => err(ctx, TypeMessage::BudgetExhausted),
    }
}

fn universe_of(f: u64, ctx: &TypecheckContext, tv: &TypedValue) -> (r: Result<
    Option<Const>,
    TypeError,
>)
    ensures
        answers(r, spec_universe_of(f as nat, context_of(*ctx), tv@)),
{
    match type_of_value(tv) {
        Ok(t) => const_of(f, ctx, &t),
        Err(e) => Err(e),
    }
}

fn same(f: u64, ctx: &TypecheckContext, a: &Expr, b: &Expr) -> (r: Result<bool, TypeError>)
    ensures
        answers(r, spec_same(f as nat, context_of(*ctx), a@, b@)),
{
    match prop_equal(a, b, f) {
        Some(r) => Ok(r),
        None => err(ctx, TypeMessage::BudgetExhausted),
    }
}

fn same_type(f: u64, ctx: &TypecheckContext, a: &TypedValue, b: &TypedValue) -> (r: Result<
    bool,
    TypeError,
>)
    ensures
        answers(r, spec_same_type(f as nat, context_of(*ctx), a@, b@)),
{
    let ta = type_of_value(a);
    let tb = type_of_value(b);
    match (ta, tb) {
        (Ok(ta), Ok(tb)) => same(f, ctx, &ta.to_value(), &tb.to_value()),
        (Err(e), _) => Err(e),
        (_, Err(e)) => Err(e),
    }
}

fn has_type(f: u64, ctx: &TypecheckContext, a: &TypedValue, b: Builtin) -> (r: Result<
    bool,
    TypeError,
>)
    ensures
        answers(r, spec_has_type(f as nat, context_of(*ctx), a@, b)),
{
    match type_of_value(a) {
        Ok(ta) => same(f, ctx, &ta.to_value(), &Expr::Builtin(b)),
        Err(e) => Err(e),
    }
}

fn mk_simple_type(b: Builtin) -> (r: TypedValue)
    ensures
        r@ == simple_type(b),
{
    proof {
        reveal_with_fuel(crate::typed::typed_of, 2);
    }
    TypedValue::Typed(Expr::Builtin(b), Box::new(TypedValue::Const(Const::Type)))
}

fn mk_typed(v: Expr, t: TypedValue) -> (r: TypedValue)
    ensures
        r@ == typed(v@, t@),
{
    TypedValue::Typed(v, Box::new(t))
}

fn field_values(kts: &Vec<(String, TypedValue)>) -> (r: Vec<(String, Expr)>)
    ensures
        fields_of(r) == values_of(typed_fields_of(*kts)),
{
    let mut out: Vec<(String, Expr)> = Vec::new();
    let mut i: usize = 0;
    while i < kts.len()
        invariant
            i <= kts.len(),
            out.len() == i,
            forall|j: int|
                0 <= j < i ==> out[j].0@ == kts[j].0@ && out[j].1@ == value_of(kts[j].1@),
        decreases kts.len() - i,
    {
        out.push((kts[i].0.clone(), kts[i].1.to_value()));
        i += 1;
    }
    assert(fields_of(out) =~= values_of(typed_fields_of(*kts)));
    out
}

fn term_values(ts: &Vec<TypedValue>) -> (r: Vec<Expr>)
    ensures
        terms_of(r) == term_values_of(typed_terms_of(*ts)),
{
    let mut out: Vec<Expr> = Vec::new();
    let mut i: usize = 0;
    while i < ts.len()
        invariant
            i <= ts.len(),
            out.len() == i,
            forall|j: int| 0 <= j < i ==> out[j]@ == value_of(ts[j]@),
        decreases ts.len() - i,
    {
        out.push(ts[i].to_value());
        i += 1;
    }
    assert(terms_of(out) =~= term_values_of(typed_terms_of(*ts)));
    out
}

fn alt_values(kts: &Vec<(String, Option<TypedValue>)>) -> (r: Vec<(String, Option<Expr>)>)
    ensures
        alternatives_of(r) == alt_values_of(typed_alts_of(*kts)),
{
    let mut out: Vec<(String, Option<Expr>)> = Vec::new();
    let mut i: usize = 0;
    while i < kts.len()
        invariant
            i <= kts.len(),
            out.len() == i,
            forall|j: int|
                0 <= j < i ==> out[j].0@ == kts[j].0@ && crate::syntax::opt_term_of(out[j].1)
                    == (match kts[j].1 {
                    Some(t) => Some(value_of(t@)),
                    None => None,
                }),
        decreases kts.len() - i,
    {
        let v = match &kts[i].1 {
            Some(t) => Some(t.to_value()),
            None => None,
        };
        out.push((kts[i].0.clone(), v));
        i += 1;
    }
    assert(alternatives_of(out) =~= alt_values_of(typed_alts_of(*kts)));
    out
}

/// The function type `∀(x : tx) → te`, checked.
pub fn tck_pi_type(f: u64, ctx: &TypecheckContext, x: &String, tx: &TypedValue, te: &TypedValue) -> (r:
    Result<TypedValue, TypeError>)
    ensures
        checked(r, spec_tck_pi_type(f as nat, context_of(*ctx), x@, tx@, te@)),
{
    reveal(spec_tck_pi_type);
    let ka = match universe_of(f, ctx, tx) {
        Err(e) => return Err(e),
        Ok(None) => return err(ctx, TypeMessage::InvalidInputType(tx.to_value())),
        Ok(Some(k)) => k,
    };
    let kb = match universe_of(f, ctx, te) {
        Err(e) => return Err(e),
        Ok(None) => {
            let ctx2 = ctx.insert_type(x, tx);
            let tte = type_of_value(te);
            return match (ctx2, tte) {
                (Some(ctx2), Ok(tte)) => err(&ctx2, TypeMessage::InvalidOutputType(tte.to_value())),
                (_, Err(e)) => Err(e),
                (None, _) => err(ctx, TypeMessage::BudgetExhausted),
            };
        },
        Ok(Some(k)) => k,
    };
    Ok(
        mk_typed(
            Expr::Pi(x.clone(), Box::new(tx.to_value()), Box::new(te.to_value())),
            TypedValue::Const(function_check(ka, kb)),
        ),
    )
}

fn find_typed_field(fs: &Vec<(String, TypedValue)>, l: &String) -> (r: Option<usize>)
    ensures
        match r {
            Some(i) => index_of(typed_fields_of(*fs), l@, 0) == Some(i as nat) && i < fs.len(),
            None => index_of(typed_fields_of(*fs), l@, 0) is None,
        },
{
    let mut i: usize = 0;
    while i < fs.len()
        invariant
            i <= fs.len(),
            index_of(typed_fields_of(*fs), l@, 0) == index_of(typed_fields_of(*fs), l@, i as nat),
        decreases fs.len() - i,
    {
        if crate::var::same_name(&fs[i].0, l) {
            return Some(i);
        }
        i += 1;
    }
    None
}

fn find_typed_alt(fs: &Vec<(String, Option<TypedValue>)>, l: &String) -> (r: Option<usize>)
    ensures
        match r {
            Some(i) => index_of(typed_alts_of(*fs), l@, 0) == Some(i as nat) && i < fs.len(),
            None => index_of(typed_alts_of(*fs), l@, 0) is None,
        },
{
    let mut i: usize = 0;
    while i < fs.len()
        invariant
            i <= fs.len(),
            index_of(typed_alts_of(*fs), l@, 0) == index_of(typed_alts_of(*fs), l@, i as nat),
        decreases fs.len() - i,
    {
        if crate::var::same_name(&fs[i].0, l) {
            return Some(i);
        }
        i += 1;
    }
    None
}

fn opt_const_differs(k: Option<Const>, k2: Option<Const>) -> (r: bool)
    ensures
        r == (k2 is None || (k is Some && k != k2)),
{
    match (k, k2) {
        (_, None) => true,
        (Some(a), Some(b)) => a != b,
        (None, Some(_)) => false,
    }
}

fn record_kind(f: u64, ctx: &TypecheckContext, kts: &Vec<(String, TypedValue)>) -> (r: Result<
    Option<Const>,
    TypeError,
>)
    ensures
        answers(
            r,
            spec_record_kind(f as nat, context_of(*ctx), typed_fields_of(*kts), kts.len() as nat),
        ),
{
    let mut k: Option<Const> = None;
    let mut i: usize = 0;
    while i < kts.len()
        invariant
            i <= kts.len(),
            spec_record_kind(f as nat, context_of(*ctx), typed_fields_of(*kts), i as nat) == Ok::<
                Option<Const>,
                Failure,
            >(k),
        decreases kts.len() - i,
    {
        let k2 = match universe_of(f, ctx, &kts[i].1) {
            Err(e) => {
                proof {
                    lemma_record_kind_stays(
                        f as nat,
                        context_of(*ctx),
                        typed_fields_of(*kts),
                        (i + 1) as nat,
                        kts.len() as nat,
                    );
                }
                return Err(e);
            },
            Ok(k2) => k2,
        };
        let bad = if opt_const_differs(k, k2) {
            Some(TypeMessage::InvalidFieldType(kts[i].0.clone(), kts[i].1.to_value()))
        } else {
            match find_typed_field(kts, &kts[i].0) {
                Some(j) => if j != i {
                    Some(TypeMessage::RecordTypeDuplicateField)
                } else {
                    None
                },
                None => Some(TypeMessage::RecordTypeDuplicateField),
            }
        };
        match bad {
            Some(m) => {
                proof {
                    lemma_record_kind_stays(
                        f as nat,
                        context_of(*ctx),
                        typed_fields_of(*kts),
                        (i + 1) as nat,
                        kts.len() as nat,
                    );
                }
                return err(ctx, m);
            },
            None => {},
        }
        k = k2;
        i += 1;
    }
    Ok(k)
}

proof fn lemma_record_kind_stays(f: nat, ctx: Bindings, kts: TypedFields, k: nat, n: nat)
    requires
        k <= n <= kts.len(),
        spec_record_kind(f, ctx, kts, k) is Err,
    ensures
        spec_record_kind(f, ctx, kts, n) == spec_record_kind(f, ctx, kts, k),
    decreases n,
{
    if k < n {
        lemma_record_kind_stays(f, ctx, kts, k, (n - 1) as nat);
    }
}

proof fn lemma_union_kind_stays(
    f: nat,
    ctx: Bindings,
    kts: Seq<(Name, Option<TypedTerm>)>,
    k: nat,
    n: nat,
)
    requires
        k <= n <= kts.len(),
        spec_union_kind(f, ctx, kts, k) is Err,
    ensures
        spec_union_kind(f, ctx, kts, n) == spec_union_kind(f, ctx, kts, k),
    decreases n,
{
    if k < n {
        lemma_union_kind_stays(f, ctx, kts, k, (n - 1) as nat);
    }
}

fn kind_or(k: Option<Const>) -> (r: Const)
    ensures
        r == kind_or_type(k),
{
    match k {
        Some(c) => c,
        None => Const::Type,
    }
}

/// The record type of the entries `kts`, checked.
pub fn tck_record_type(f: u64, ctx: &TypecheckContext, kts: &Vec<(String, TypedValue)>) -> (r: Result<
    TypedValue,
    TypeError,
>)
    ensures
        checked(r, spec_tck_record_type(f as nat, context_of(*ctx), typed_fields_of(*kts))),
{
    reveal(spec_tck_record_type);
    match record_kind(f, ctx, kts) {
        Err(e) => Err(e),
        Ok(k) => Ok(mk_typed(Expr::RecordType(field_values(kts)), TypedValue::Const(kind_or(k)))),
    }
}

fn union_kind(f: u64, ctx: &TypecheckContext, kts: &Vec<(String, Option<TypedValue>)>) -> (r: Result<
    Option<Const>,
    TypeError,
>)
    ensures
        answers(
            r,
            spec_union_kind(f as nat, context_of(*ctx), typed_alts_of(*kts), kts.len() as nat),
        ),
{
    let mut k: Option<Const> = None;
    let mut i: usize = 0;
    while i < kts.len()
        invariant
            i <= kts.len(),
            spec_union_kind(f as nat, context_of(*ctx), typed_alts_of(*kts), i as nat) == Ok::<
                Option<Const>,
                Failure,
            >(k),
        decreases kts.len() - i,
    {
        let first = match find_typed_alt(kts, &kts[i].0) {
            Some(j) => j == i,
            None => false,
        };
        let mut next = k;
        let bad = match &kts[i].1 {
            Some(t) => {
                match universe_of(f, ctx, t) {
                    Err(e) => {
                        proof {
                            lemma_union_kind_stays(
                                f as nat,
                                context_of(*ctx),
                                typed_alts_of(*kts),
                                (i + 1) as nat,
                                kts.len() as nat,
                            );
                        }
                        return Err(e);
                    },
                    Ok(k2) => {
                        next = k2;
                        if opt_const_differs(k, k2) {
                            Some(TypeMessage::InvalidFieldType(kts[i].0.clone(), t.to_value()))
                        } else if !first {
                            Some(TypeMessage::UnionTypeDuplicateField)
                        } else {
                            None
                        }
                    },
                }
            },
            None => if !first {
                Some(TypeMessage::UnionTypeDuplicateField)
            } else {
                None
            },
        };
        match bad {
            Some(m) => {
                proof {
                    lemma_union_kind_stays(
                        f as nat,
                        context_of(*ctx),
                        typed_alts_of(*kts),
                        (i + 1) as nat,
                        kts.len() as nat,
                    );
                }
                return err(ctx, m);
            },
            None => {},
        }
        k = next;
        i += 1;
    }
    Ok(k)
}

/// The union type of the alternatives `kts`, checked.
pub fn tck_union_type(f: u64, ctx: &TypecheckContext, kts: &Vec<(String, Option<TypedValue>)>) -> (r:
    Result<TypedValue, TypeError>)
    ensures
        checked(r, spec_tck_union_type(f as nat, context_of(*ctx), typed_alts_of(*kts))),
{
    reveal(spec_tck_union_type);
    match union_kind(f, ctx, kts) {
        Err(e) => Err(e),
        Ok(k) => Ok(mk_typed(Expr::UnionType(alt_values(kts)), TypedValue::Const(kind_or(k)))),
    }
}

fn tck_annot(f: u64, ctx: &TypecheckContext, x: &TypedValue, t: &TypedValue) -> (r: Result<
    TypedValue,
    TypeError,
>)
    ensures
        checked(r, spec_tck_annot(f as nat, context_of(*ctx), x@, t@)),
{
    reveal(spec_tck_annot);
    let tx = match type_of_value(x) {
        Err(e) => return Err(e),
        Ok(tx) => tx,
    };
    match same(f, ctx, &t.to_value(), &tx.to_value()) {
        Err(e) => Err(e),
        Ok(false) => err(ctx, TypeMessage::AnnotMismatch(x.to_value(), t.to_value())),
        Ok(true) => Ok(tx),
    }
}

fn tck_assert(f: u64, ctx: &TypecheckContext, t: &TypedValue) -> (r: Result<TypedValue, TypeError>)
    ensures
        checked(r, spec_tck_assert(f as nat, context_of(*ctx), t@)),
{
    reveal(spec_tck_assert);
    match whnf(&t.to_value(), f) {
        None => err(ctx, TypeMessage::BudgetExhausted),
        Some(Expr::BinOp(BinOp::Equivalence, x, y)) => match same(f, ctx, &x, &y) {
            Err(e) => Err(e),
            Ok(true) => Ok(clone_typed(t)),
            Ok(false) => err(ctx, TypeMessage::AssertMismatch(*x, *y)),
        },
        Some(_) => err(ctx, TypeMessage::AssertMustTakeEquivalence),
    }
}

fn is_term(f: u64, ctx: &TypecheckContext, y: &TypedValue) -> (r: Result<bool, TypeError>)
    ensures
        answers(r, spec_is_term(f as nat, context_of(*ctx), y@)),
{
    let ty = match type_of_value(y) {
        Err(e) => return Err(e),
        Ok(ty) => ty,
    };
    match universe_of(f, ctx, &ty) {
        Err(e) => Err(e),
        Ok(Some(Const::Type)) => Ok(true),
        Ok(_) => Ok(false),
    }
}

fn tck_if(f: u64, ctx: &TypecheckContext, x: &TypedValue, y: &TypedValue, z: &TypedValue) -> (r:
    Result<TypedValue, TypeError>)
    ensures
        checked(r, spec_tck_if(f as nat, context_of(*ctx), x@, y@, z@)),
{
    reveal(spec_tck_if);
    match has_type(f, ctx, x, Builtin::Bool) {
        Err(e) => return Err(e),
        Ok(false) => return err(ctx, TypeMessage::InvalidPredicate(x.to_value())),
        Ok(true) => {},
    }
    match is_term(f, ctx, y) {
        Err(e) => return Err(e),
        Ok(false) => return err(ctx, TypeMessage::IfBranchMustBeTerm(true, y.to_value())),
        Ok(true) => {},
    }
    match is_term(f, ctx, z) {
        Err(e) => return Err(e),
        Ok(false) => return err(ctx, TypeMessage::IfBranchMustBeTerm(false, z.to_value())),
        Ok(true) => {},
    }
    match same_type(f, ctx, y, z) {
        Err(e) => Err(e),
        Ok(false) => err(ctx, TypeMessage::IfBranchMismatch(y.to_value(), z.to_value())),
        Ok(true) => type_of_value(y),
    }
}

fn list_type(w: &Expr) -> (r: bool)
    ensures
        r == is_list_type(w@),
{
    proof {
        reveal_with_fuel(term_of, 2);
    }
    match w {
        Expr::App(l, _) => match &**l {
            Expr::Builtin(Builtin::List) => true,
            _ => false,
        },
        _ => false,
    }
}

fn tck_empty_list(f: u64, ctx: &TypecheckContext, t: &TypedValue) -> (r: Result<
    TypedValue,
    TypeError,
>)
    ensures
        checked(r, spec_tck_empty_list(f as nat, context_of(*ctx), t@)),
{
    reveal(spec_tck_empty_list);
    match whnf(&t.to_value(), f) {
        None => err(ctx, TypeMessage::BudgetExhausted),
        Some(w) => if list_type(&w) {
            Ok(clone_typed(t))
        } else {
            err(ctx, TypeMessage::InvalidListType(t.to_value()))
        },
    }
}

proof fn lemma_same_elements_stays(f: nat, ctx: Bindings, x: TypedTerm, xs: Seq<TypedTerm>, k: nat, n: nat)
    requires
        k <= n <= xs.len(),
        spec_same_elements(f, ctx, x, xs, k) is Err,
    ensures
        spec_same_elements(f, ctx, x, xs, n) == spec_same_elements(f, ctx, x, xs, k),
    decreases n,
{
    if k < n {
        lemma_same_elements_stays(f, ctx, x, xs, k, (n - 1) as nat);
    }
}

fn same_elements(f: u64, ctx: &TypecheckContext, x: &TypedValue, xs: &Vec<TypedValue>) -> (r: Result<
    (),
    TypeError,
>)
    ensures
        answers(
            r,
            spec_same_elements(
                f as nat,
                context_of(*ctx),
                x@,
                typed_terms_of(*xs),
                xs.len() as nat,
            ),
        ),
{
    let mut i: usize = 0;
    while i < xs.len()
        invariant
            i <= xs.len(),
            spec_same_elements(f as nat, context_of(*ctx), x@, typed_terms_of(*xs), i as nat)
                == Ok::<(), Failure>(()),
        decreases xs.len() - i,
    {
        let res: Result<(), TypeError> = match same_type(f, ctx, x, &xs[i]) {
            Err(e) => Err(e),
            Ok(true) => Ok(()),
            Ok(false) => match type_of_value(x) {
                Ok(tx) => err(
                    ctx,
                    TypeMessage::InvalidListElement(i + 1, tx.to_value(), xs[i].to_value()),
                ),
                Err(e) => Err(e),
            },
        };
        match res {
            Err(e) => {
                proof {
                    lemma_same_elements_stays(
                        f as nat,
                        context_of(*ctx),
                        x@,
                        typed_terms_of(*xs),
                        (i + 1) as nat,
                        xs.len() as nat,
                    );
                }
                return Err(e);
            },
            Ok(_) => {},
        }
        i += 1;
    }
    Ok(())
}

fn container(f: u64, ctx: &TypecheckContext, c: Builtin, t: &TypedValue, m: TypeMessage) -> (r:
    Result<TypedValue, TypeError>)
    ensures
        checked(r, spec_container(f as nat, context_of(*ctx), c, t@, m@)),
{
    match universe_of(f, ctx, t) {
        Err(e) => Err(e),
        Ok(Some(Const::Type)) => Ok(
            mk_typed(mk_app(Expr::Builtin(c), t.to_value()), TypedValue::Const(Const::Type)),
        ),
        Ok(_) => err(ctx, m),
    }
}

fn tck_list(f: u64, ctx: &TypecheckContext, x: &TypedValue, xs: &Vec<TypedValue>) -> (r: Result<
    TypedValue,
    TypeError,
>)
    ensures
        checked(r, spec_tck_list(f as nat, context_of(*ctx), x@, typed_terms_of(*xs))),
{
    reveal(spec_tck_list);
    match same_elements(f, ctx, x, xs) {
        Err(e) => return Err(e),
        Ok(_) => {},
    }
    match type_of_value(x) {
        Err(e) => Err(e),
        Ok(t) => container(f, ctx, Builtin::List, &t, TypeMessage::InvalidListType(t.to_value())),
    }
}

fn tck_some(f: u64, ctx: &TypecheckContext, x: &TypedValue) -> (r: Result<TypedValue, TypeError>)
    ensures
        checked(r, spec_tck_some(f as nat, context_of(*ctx), x@)),
{
    reveal(spec_tck_some);
    match type_of_value(x) {
        Err(e) => Err(e),
        Ok(t) => container(
            f,
            ctx,
            Builtin::Optional,
            &t,
            TypeMessage::InvalidOptionalType(t.to_value()),
        ),
    }
}

proof fn lemma_types_of_fields_stays(kvs: TypedFields, k: nat, n: nat)
    requires
        k <= n <= kvs.len(),
        spec_types_of_fields(kvs, k) is Err,
    ensures
        spec_types_of_fields(kvs, n) == spec_types_of_fields(kvs, k),
    decreases n,
{
    if k < n {
        lemma_types_of_fields_stays(kvs, k, (n - 1) as nat);
    }
}

fn tck_record_lit(f: u64, ctx: &TypecheckContext, kvs: &Vec<(String, TypedValue)>) -> (r: Result<
    TypedValue,
    TypeError,
>)
    ensures
        checked(r, spec_tck_record_lit(f as nat, context_of(*ctx), typed_fields_of(*kvs))),
{
    let mut kts: Vec<(String, TypedValue)> = Vec::new();
    assert(typed_fields_of(kts) =~= Seq::empty());
    let mut i: usize = 0;
    while i < kvs.len()
        invariant
            i <= kvs.len(),
            spec_types_of_fields(typed_fields_of(*kvs), i as nat) == Ok::<TypedFields, Failure>(
                typed_fields_of(kts),
            ),
        decreases kvs.len() - i,
    {
        match type_of_value(&kvs[i].1) {
            Err(e) => {
                proof {
                    reveal(spec_tck_record_lit);
                    lemma_types_of_fields_stays(
                        typed_fields_of(*kvs),
                        (i + 1) as nat,
                        kvs.len() as nat,
                    );
                }
                return Err(e);
            },
            Ok(t) => {
                let ghost prev = typed_fields_of(kts);
                kts.push((kvs[i].0.clone(), t));
                assert(typed_fields_of(kts) =~= prev.push((kvs[i as int].0@, t@)));
            },
        }
        i += 1;
    }
    reveal(spec_tck_record_lit);
    tck_record_type(f, ctx, &kts)
}

proof fn lemma_text_chunks_stays(f: nat, ctx: Bindings, chunks: TypedFields, k: nat, n: nat)
    requires
        k <= n <= chunks.len(),
        spec_text_chunks(f, ctx, chunks, k) is Err,
    ensures
        spec_text_chunks(f, ctx, chunks, n) == spec_text_chunks(f, ctx, chunks, k),
    decreases n,
{
    if k < n {
        lemma_text_chunks_stays(f, ctx, chunks, k, (n - 1) as nat);
    }
}

fn tck_text(f: u64, ctx: &TypecheckContext, chunks: &Vec<(String, TypedValue)>) -> (r: Result<
    TypedValue,
    TypeError,
>)
    ensures
        checked(r, spec_tck_text(f as nat, context_of(*ctx), typed_fields_of(*chunks))),
{
    let mut i: usize = 0;
    while i < chunks.len()
        invariant
            i <= chunks.len(),
            spec_text_chunks(f as nat, context_of(*ctx), typed_fields_of(*chunks), i as nat)
                == Ok::<(), Failure>(()),
        decreases chunks.len() - i,
    {
        let res: Result<(), TypeError> = match has_type(f, ctx, &chunks[i].1, Builtin::Text) {
            Err(e) => Err(e),
            Ok(true) => Ok(()),
            Ok(false) => err(ctx, TypeMessage::InvalidTextInterpolation(chunks[i].1.to_value())),
        };
        match res {
            Err(e) => {
                proof {
                    reveal(spec_tck_text);
                    lemma_text_chunks_stays(
                        f as nat,
                        context_of(*ctx),
                        typed_fields_of(*chunks),
                        (i + 1) as nat,
                        chunks.len() as nat,
                    );
                }
                return Err(e);
            },
            Ok(_) => {},
        }
        i += 1;
    }
    reveal(spec_tck_text);
    Ok(mk_simple_type(Builtin::Text))
}

fn operand(o: BinOp) -> (r: Builtin)
    ensures
        r == operand_type(o),
{
    match o {
        BinOp::NaturalPlus | BinOp::NaturalTimes => Builtin::Natural,
        BinOp::TextAppend => Builtin::Text,
        _ => Builtin::Bool,
    }
}

fn tck_simple_op(f: u64, ctx: &TypecheckContext, o: BinOp, l: &TypedValue, r: &TypedValue) -> (res:
    Result<TypedValue, TypeError>)
    ensures
        checked(res, spec_tck_simple_op(f as nat, context_of(*ctx), o, l@, r@)),
{
    reveal(spec_tck_simple_op);
    match has_type(f, ctx, l, operand(o)) {
        Err(e) => return Err(e),
        Ok(false) => return err(ctx, TypeMessage::BinOpTypeMismatch(o, l.to_value())),
        Ok(true) => {},
    }
    match has_type(f, ctx, r, operand(o)) {
        Err(e) => Err(e),
        Ok(false) => err(ctx, TypeMessage::BinOpTypeMismatch(o, r.to_value())),
        Ok(true) => Ok(mk_simple_type(operand(o))),
    }
}

fn tck_list_append(f: u64, ctx: &TypecheckContext, l: &TypedValue, r: &TypedValue) -> (res: Result<
    TypedValue,
    TypeError,
>)
    ensures
        checked(res, spec_tck_list_append(f as nat, context_of(*ctx), l@, r@)),
{
    reveal(spec_tck_list_append);
    let tl = match type_of_value(l) {
        Err(e) => return Err(e),
        Ok(tl) => tl,
    };
    match whnf(&tl.to_value(), f) {
        None => err(ctx, TypeMessage::BudgetExhausted),
        Some(w) => if list_type(&w) {
            match same_type(f, ctx, l, r) {
                Err(e) => Err(e),
                Ok(false) => err(
                    ctx,
                    TypeMessage::BinOpTypeMismatch(BinOp::ListAppend, r.to_value()),
                ),
                Ok(true) => Ok(tl),
            }
        } else {
            err(ctx, TypeMessage::BinOpTypeMismatch(BinOp::ListAppend, l.to_value()))
        },
    }
}

fn tck_equivalence(f: u64, ctx: &TypecheckContext, l: &TypedValue, r: &TypedValue) -> (res: Result<
    TypedValue,
    TypeError,
>)
    ensures
        checked(res, spec_tck_equivalence(f as nat, context_of(*ctx), l@, r@)),
{
    reveal(spec_tck_equivalence);
    match is_term(f, ctx, l) {
        Err(e) => return Err(e),
        Ok(false) => return err(
            ctx,
            TypeMessage::EquivalenceArgumentMustBeTerm(true, l.to_value()),
        ),
        Ok(true) => {},
    }
    match is_term(f, ctx, r) {
        Err(e) => return Err(e),
        Ok(false) => return err(
            ctx,
            TypeMessage::EquivalenceArgumentMustBeTerm(false, r.to_value()),
        ),
        Ok(true) => {},
    }
    match same_type(f, ctx, l, r) {
        Err(e) => Err(e),
        Ok(false) => err(ctx, TypeMessage::EquivalenceTypeMismatch(r.to_value(), l.to_value())),
        Ok(true) => Ok(TypedValue::Const(Const::Type)),
    }
}

/// The executable fields `r` are what the model gives.
pub open spec fn fields_answer(
    r: Result<Option<Vec<(String, Expr)>>, TypeError>,
    s: Result<Option<Fields>, Failure>,
) -> bool {
    match r {
        Ok(Some(v)) => s == Ok::<Option<Fields>, Failure>(Some(fields_of(v))),
        Ok(None) => s == Ok::<Option<Fields>, Failure>(None),
        Err(e) => s == Err::<Option<Fields>, Failure>(e@),
    }
}

/// The executable alternatives `r` are what the model gives.
pub open spec fn alternatives_answer(
    r: Result<Option<Vec<(String, Option<Expr>)>>, TypeError>,
    s: Result<Option<Alternatives>, Failure>,
) -> bool {
    match r {
        Ok(Some(v)) => s == Ok::<Option<Alternatives>, Failure>(Some(alternatives_of(v))),
        Ok(None) => s == Ok::<Option<Alternatives>, Failure>(None),
        Err(e) => s == Err::<Option<Alternatives>, Failure>(e@),
    }
}

fn record_fields(f: u64, ctx: &TypecheckContext, t: &Expr) -> (r: Result<
    Option<Vec<(String, Expr)>>,
    TypeError,
>)
    ensures
        fields_answer(r, spec_record_fields(f as nat, context_of(*ctx), t@)),
{
    match whnf(t, f) {
        None => err(ctx, TypeMessage::BudgetExhausted),
        Some(Expr::RecordType(kts)) => Ok(Some(kts)),
        Some(_) => Ok(None),
    }
}

fn union_alternatives(f: u64, ctx: &TypecheckContext, t: &Expr) -> (r: Result<
    Option<Vec<(String, Option<Expr>)>>,
    TypeError,
>)
    ensures
        alternatives_answer(r, spec_union_alternatives(f as nat, context_of(*ctx), t@)),
{
    match whnf(t, f) {
        None => err(ctx, TypeMessage::BudgetExhausted),
        Some(Expr::UnionType(kts)) => Ok(Some(kts)),
        Some(_) => Ok(None),
    }
}

fn tck_projection(f: u64, ctx: &TypecheckContext, r: &TypedValue, ls: &Vec<String>) -> (res: Result<
    TypedValue,
    TypeError,
>)
    ensures
        checked(res, spec_tck_projection(f as nat, context_of(*ctx), r@, names_of(*ls))),
{
    reveal(spec_tck_projection);
    let tr = match type_of_value(r) {
        Err(e) => return Err(e),
        Ok(tr) => tr,
    };
    let kts = match record_fields(f, ctx, &tr.to_value()) {
        Err(e) => return Err(e),
        Ok(None) => return err(ctx, TypeMessage::ProjectionMustBeRecord),
        Ok(Some(kts)) => kts,
    };
    match crate::record::project(&kts, ls) {
        None => err(ctx, TypeMessage::ProjectionMissingEntry),
        Some(sel) => match type_of_value(&tr) {
            Err(e) => Err(e),
            Ok(k) => Ok(mk_typed(Expr::RecordType(sel), k)),
        },
    }
}

fn merge_operands(f: u64, ctx: &TypecheckContext, l: &TypedValue, r: &TypedValue) -> (res: Result<
    (Vec<(String, Expr)>, Vec<(String, Expr)>),
    TypeError,
>)
    ensures
        match res {
            Ok((kl, kr)) => spec_merge_operands(f as nat, context_of(*ctx), l@, r@) == Ok::<
                (Fields, Fields),
                Failure,
            >((fields_of(kl), fields_of(kr))),
            Err(e) => spec_merge_operands(f as nat, context_of(*ctx), l@, r@) == Err::<
                (Fields, Fields),
                Failure,
            >(e@),
        },
{
    reveal(spec_merge_operands);
    let tl = type_of_value(l);
    let tr = type_of_value(r);
    let (tl, tr) = match (tl, tr) {
        (Err(e), _) => return Err(e),
        (_, Err(e)) => return Err(e),
        (Ok(tl), Ok(tr)) => (tl, tr),
    };
    match same_type(f, ctx, &tl, &tr) {
        Err(e) => return Err(e),
        Ok(false) => return err(ctx, TypeMessage::RecordMismatch(l.to_value(), r.to_value())),
        Ok(true) => {},
    }
    let kl = match record_fields(f, ctx, &tl.to_value()) {
        Err(e) => return Err(e),
        Ok(None) => return err(ctx, TypeMessage::MustCombineRecord(true, l.to_value())),
        Ok(Some(kl)) => kl,
    };
    let kr = match record_fields(f, ctx, &tr.to_value()) {
        Err(e) => return Err(e),
        Ok(None) => return err(ctx, TypeMessage::MustCombineRecord(false, r.to_value())),
        Ok(Some(kr)) => kr,
    };
    Ok((kl, kr))
}

proof fn lemma_combine_left_stays(f: nat, ctx: Bindings, kl: Fields, kr: Fields, k: nat, n: nat)
    requires
        k <= n <= kl.len(),
        spec_combine_left(f, ctx, kl, kr, k) is Err,
    ensures
        spec_combine_left(f, ctx, kl, kr, n) == spec_combine_left(f, ctx, kl, kr, k),
    decreases n,
{
    if k < n {
        lemma_combine_left_stays(f, ctx, kl, kr, k, (n - 1) as nat);
    }
}

fn combine_entry(f: u64, ctx: &TypecheckContext, label: &String, l: &Expr, r: &Expr) -> (res: Result<
    Vec<(String, Expr)>,
    TypeError,
>)
    requires
        f > 0,
    ensures
        match res {
            Ok(c) => (match (
                spec_record_fields(f as nat, context_of(*ctx), l@),
                spec_record_fields(f as nat, context_of(*ctx), r@),
            ) {
                (Err(e), _) => Err(e),
                (_, Err(e)) => Err(e),
                (Ok(Some(a)), Ok(Some(b))) => spec_combine((f - 1) as nat, context_of(*ctx), a, b),
                _ => Err(fail(context_of(*ctx), Message::FieldCollision(label@))),
            }) == Ok::<Fields, Failure>(fields_of(c)),
            Err(e) => (match (
                spec_record_fields(f as nat, context_of(*ctx), l@),
                spec_record_fields(f as nat, context_of(*ctx), r@),
            ) {
                (Err(e), _) => Err(e),
                (_, Err(e)) => Err(e),
                (Ok(Some(a)), Ok(Some(b))) => spec_combine((f - 1) as nat, context_of(*ctx), a, b),
                _ => Err(fail(context_of(*ctx), Message::FieldCollision(label@))),
            }) == Err::<Fields, Failure>(e@),
        },
    decreases f, 0nat,
{
    let a = record_fields(f, ctx, l);
    let b = record_fields(f, ctx, r);
    match (a, b) {
        (Err(e), _) => Err(e),
        (_, Err(e)) => Err(e),
        (Ok(Some(a)), Ok(Some(b))) => combine(f - 1, ctx, &a, &b),
        _ => err(ctx, TypeMessage::FieldCollision(label.clone())),
    }
}

/// The recursive join of the record types `kl` and `kr`.
pub fn combine(f: u64, ctx: &TypecheckContext, kl: &Vec<(String, Expr)>, kr: &Vec<(String, Expr)>) -> (res:
    Result<Vec<(String, Expr)>, TypeError>)
    ensures
        match res {
            Ok(c) => spec_combine(f as nat, context_of(*ctx), fields_of(*kl), fields_of(*kr))
                == Ok::<Fields, Failure>(fields_of(c)),
            Err(e) => spec_combine(f as nat, context_of(*ctx), fields_of(*kl), fields_of(*kr))
                == Err::<Fields, Failure>(e@),
        },
    decreases f, 1nat,
{
    let mut out: Vec<(String, Expr)> = Vec::new();
    assert(fields_of(out) =~= Seq::empty());
    let mut i: usize = 0;
    while i < kl.len()
        invariant
            i <= kl.len(),
            spec_combine_left(f as nat, context_of(*ctx), fields_of(*kl), fields_of(*kr), i as nat)
                == Ok::<Fields, Failure>(fields_of(out)),
        decreases kl.len() - i,
    {
        let ghost prev = fields_of(out);
        let step: Result<(), TypeError> = match find_field(kr, &kl[i].0) {
            None => {
                out.push((kl[i].0.clone(), clone_expr(&kl[i].1)));
                assert(fields_of(out) =~= prev.push(fields_of(*kl)[i as int]));
                Ok(())
            },
            Some(j) => if f == 0 {
                err(ctx, TypeMessage::BudgetExhausted)
            } else {
                match combine_entry(f, ctx, &kl[i].0, &kl[i].1, &kr[j].1) {
                    Err(e) => Err(e),
                    Ok(c) => {
                        out.push((kl[i].0.clone(), Expr::RecordType(c)));
                        assert(fields_of(out) =~= prev.push(
                            (kl[i as int].0@, Term::RecordType(fields_of(c))),
                        ));
                        Ok(())
                    },
                }
            },
        };
        match step {
            Err(e) => {
                proof {
                    lemma_combine_left_stays(
                        f as nat,
                        context_of(*ctx),
                        fields_of(*kl),
                        fields_of(*kr),
                        (i + 1) as nat,
                        kl.len() as nat,
                    );
                }
                return Err(e);
            },
            Ok(_) => {},
        }
        i += 1;
    }
    let right = only_right(kl, kr);
    Ok(append_fields(out, &right))
}

fn tck_combine_types(f: u64, ctx: &TypecheckContext, l: &TypedValue, r: &TypedValue) -> (res: Result<
    TypedValue,
    TypeError,
>)
    ensures
        checked(res, spec_tck_combine_types(f as nat, context_of(*ctx), l@, r@)),
{
    reveal(spec_tck_combine_types);
    let kl = match universe_of(f, ctx, l) {
        Err(e) => return Err(e),
        Ok(None) => return err(
            ctx,
            TypeMessage::RecordTypeMergeRequiresRecordType(true, l.to_value()),
        ),
        Ok(Some(k)) => k,
    };
    let kr = match universe_of(f, ctx, r) {
        Err(e) => return Err(e),
        Ok(None) => return err(
            ctx,
            TypeMessage::RecordTypeMergeRequiresRecordType(false, r.to_value()),
        ),
        Ok(Some(k)) => k,
    };
    if kl != kr {
        return err(ctx, TypeMessage::RecordTypeMismatch(kl, kr, l.to_value(), r.to_value()));
    }
    let fl = match record_fields(f, ctx, &l.to_value()) {
        Err(e) => return Err(e),
        Ok(None) => return err(
            ctx,
            TypeMessage::RecordTypeMergeRequiresRecordType(true, l.to_value()),
        ),
        Ok(Some(fl)) => fl,
    };
    let fr = match record_fields(f, ctx, &r.to_value()) {
        Err(e) => return Err(e),
        Ok(None) => return err(
            ctx,
            TypeMessage::RecordTypeMergeRequiresRecordType(false, r.to_value()),
        ),
        Ok(Some(fr)) => fr,
    };
    match combine(f, ctx, &fl, &fr) {
        Err(e) => Err(e),
        Ok(_) => Ok(TypedValue::Const(kl)),
    }
}

fn handler_result(f: u64, ctx: &TypecheckContext, handler: &Expr, variant: &Option<Expr>) -> (res:
    Result<Expr, TypeError>)
    ensures
        match res {
            Ok(t) => spec_handler_result(
                f as nat,
                context_of(*ctx),
                handler@,
                crate::syntax::opt_term_of(*variant),
            ) == Ok::<Term, Failure>(t@),
            Err(e) => spec_handler_result(
                f as nat,
                context_of(*ctx),
                handler@,
                crate::syntax::opt_term_of(*variant),
            ) == Err::<Term, Failure>(e@),
        },
{
    reveal(spec_handler_result);
    match variant {
        None => Ok(clone_expr(handler)),
        Some(vt) => match whnf(handler, f) {
            None => err(ctx, TypeMessage::BudgetExhausted),
            Some(Expr::Pi(x, tx, tb)) => match same(f, ctx, vt, &tx) {
                Err(e) => Err(e),
                Ok(false) => err(
                    ctx,
                    TypeMessage::TypeMismatch(clone_expr(handler), *tx, clone_expr(vt)),
                ),
                Ok(true) => match shift(-1, &V(x, 0), &tb) {
                    Some(res) => Ok(res),
                    None => err(ctx, TypeMessage::MergeHandlerReturnTypeMustNotBeDependent),
                },
            },
            Some(_) => err(ctx, TypeMessage::NotAFunction(clone_expr(handler))),
        },
    }
}

proof fn lemma_handlers_stays(f: nat, ctx: Bindings, hs: Fields, vs: Alternatives, k: nat, n: nat)
    requires
        k <= n <= hs.len(),
        spec_handlers(f, ctx, hs, vs, k) is Err,
    ensures
        spec_handlers(f, ctx, hs, vs, n) == spec_handlers(f, ctx, hs, vs, k),
    decreases n,
{
    if k < n {
        lemma_handlers_stays(f, ctx, hs, vs, k, (n - 1) as nat);
    }
}

proof fn lemma_all_handled_stays(ctx: Bindings, hs: Fields, vs: Alternatives, k: nat, n: nat)
    requires
        k <= n <= vs.len(),
        spec_all_handled(ctx, hs, vs, k) is Err,
    ensures
        spec_all_handled(ctx, hs, vs, n) == spec_all_handled(ctx, hs, vs, k),
    decreases n,
{
    if k < n {
        lemma_all_handled_stays(ctx, hs, vs, k, (n - 1) as nat);
    }
}

/// The executable optional expression `r` is what the model gives.
pub open spec fn term_answer(r: Result<Option<Expr>, TypeError>, s: Result<Option<Term>, Failure>) -> bool {
    match r {
        Ok(o) => s == Ok::<Option<Term>, Failure>(crate::syntax::opt_term_of(o)),
        Err(e) => s == Err::<Option<Term>, Failure>(e@),
    }
}

fn handler_step(
    f: u64,
    ctx: &TypecheckContext,
    h: &(String, Expr),
    vs: &Vec<(String, Option<Expr>)>,
    inferred: Option<Expr>,
) -> (res: Result<Option<Expr>, TypeError>)
    ensures
        term_answer(
            res,
            match index_of(alternatives_of(*vs), h.0@, 0) {
                None => Err(fail(context_of(*ctx), Message::MergeHandlerMissingVariant(h.0@))),
                Some(j) => match spec_handler_result(
                    f as nat,
                    context_of(*ctx),
                    h.1@,
                    alternatives_of(*vs)[j as int].1,
                ) {
                    Err(e) => Err(e),
                    Ok(res) => match crate::syntax::opt_term_of(inferred) {
                        None => Ok(Some(res)),
                        Some(t) => match spec_same(f as nat, context_of(*ctx), t, res) {
                            Err(e) => Err(e),
                            Ok(true) => Ok(Some(t)),
                            Ok(false) => Err(
                                fail(context_of(*ctx), Message::MergeHandlerTypeMismatch),
                            ),
                        },
                    },
                },
            },
        ),
{
    let j = match find_alternative(vs, &h.0) {
        None => return err(ctx, TypeMessage::MergeHandlerMissingVariant(h.0.clone())),
        Some(j) => j,
    };
    let res = match handler_result(f, ctx, &h.1, &vs[j].1) {
        Err(e) => return Err(e),
        Ok(res) => res,
    };
    match inferred {
        None => Ok(Some(res)),
        Some(t) => match same(f, ctx, &t, &res) {
            Err(e) => Err(e),
            Ok(true) => Ok(Some(t)),
            Ok(false) => err(ctx, TypeMessage::MergeHandlerTypeMismatch),
        },
    }
}

fn handlers(
    f: u64,
    ctx: &TypecheckContext,
    hs: &Vec<(String, Expr)>,
    vs: &Vec<(String, Option<Expr>)>,
) -> (res: Result<Option<Expr>, TypeError>)
    ensures
        term_answer(
            res,
            spec_handlers(
                f as nat,
                context_of(*ctx),
                fields_of(*hs),
                alternatives_of(*vs),
                hs.len() as nat,
            ),
        ),
{
    let mut inferred: Option<Expr> = None;
    let mut i: usize = 0;
    while i < hs.len()
        invariant
            i <= hs.len(),
            spec_handlers(f as nat, context_of(*ctx), fields_of(*hs), alternatives_of(*vs), i as nat)
                == Ok::<Option<Term>, Failure>(crate::syntax::opt_term_of(inferred)),
        decreases hs.len() - i,
    {
        match handler_step(f, ctx, &hs[i], vs, inferred) {
            Err(e) => {
                proof {
                    lemma_handlers_stays(
                        f as nat,
                        context_of(*ctx),
                        fields_of(*hs),
                        alternatives_of(*vs),
                        (i + 1) as nat,
                        hs.len() as nat,
                    );
                }
                return Err(e);
            },
            Ok(next) => {
                inferred = next;
            },
        }
        i += 1;
    }
    Ok(inferred)
}

fn all_handled(ctx: &TypecheckContext, hs: &Vec<(String, Expr)>, vs: &Vec<(String, Option<Expr>)>) -> (res:
    Result<(), TypeError>)
    ensures
        answers(
            res,
            spec_all_handled(
                context_of(*ctx),
                fields_of(*hs),
                alternatives_of(*vs),
                vs.len() as nat,
            ),
        ),
{
    let mut i: usize = 0;
    while i < vs.len()
        invariant
            i <= vs.len(),
            spec_all_handled(context_of(*ctx), fields_of(*hs), alternatives_of(*vs), i as nat)
                == Ok::<(), Failure>(()),
        decreases vs.len() - i,
    {
        match find_field(hs, &vs[i].0) {
            Some(_) => {},
            None => {
                proof {
                    lemma_all_handled_stays(
                        context_of(*ctx),
                        fields_of(*hs),
                        alternatives_of(*vs),
                        (i + 1) as nat,
                        vs.len() as nat,
                    );
                }
                return err(ctx, TypeMessage::MergeVariantMissingHandler(vs[i].0.clone()));
            },
        }
        i += 1;
    }
    Ok(())
}

fn merge_parts(f: u64, ctx: &TypecheckContext, record: &TypedValue, union: &TypedValue) -> (res:
    Result<Option<Expr>, TypeError>)
    ensures
        term_answer(res, spec_merge_parts(f as nat, context_of(*ctx), record@, union@)),
{
    reveal(spec_merge_parts);
    let tr = match type_of_value(record) {
        Err(e) => return Err(e),
        Ok(tr) => tr,
    };
    let hs = match record_fields(f, ctx, &tr.to_value()) {
        Err(e) => return Err(e),
        Ok(None) => return err(ctx, TypeMessage::Merge1ArgMustBeRecord(record.to_value())),
        Ok(Some(hs)) => hs,
    };
    let tu = match type_of_value(union) {
        Err(e) => return Err(e),
        Ok(tu) => tu,
    };
    let vs = match union_alternatives(f, ctx, &tu.to_value()) {
        Err(e) => return Err(e),
        Ok(None) => return err(ctx, TypeMessage::Merge2ArgMustBeUnion(union.to_value())),
        Ok(Some(vs)) => vs,
    };
    let inferred = match handlers(f, ctx, &hs, &vs) {
        Err(e) => return Err(e),
        Ok(inferred) => inferred,
    };
    match all_handled(ctx, &hs, &vs) {
        Err(e) => Err(e),
        Ok(_) => Ok(inferred),
    }
}

fn tck_merge(
    f: u64,
    ctx: &TypecheckContext,
    record: &TypedValue,
    union: &TypedValue,
    annot: &Option<TypedValue>,
) -> (res: Result<TypedValue, TypeError>)
    ensures
        checked(
            res,
            spec_tck_merge(
                f as nat,
                context_of(*ctx),
                record@,
                union@,
                match *annot {
                    Some(t) => Some(t@),
                    None => None,
                },
            ),
        ),
    decreases f, 1nat, 0nat,
{
    let inferred = match merge_parts(f, ctx, record, union) {
        Err(e) => return Err(e),
        Ok(inferred) => inferred,
    };
    match (inferred, annot) {
        (Some(t1), Some(t2)) => match same(f, ctx, &t1, &t2.to_value()) {
            Err(e) => Err(e),
            Ok(false) => err(ctx, TypeMessage::MergeAnnotMismatch),
            Ok(true) => Ok(clone_typed(t2)),
        },
        (Some(t), None) => mktype(f, ctx, &t),
        (None, Some(t)) => Ok(clone_typed(t)),
        (None, None) => err(ctx, TypeMessage::MergeEmptyNeedsAnnotation),
    }
}

fn tck_app(f: u64, ctx: &TypecheckContext, g: &TypedValue, a: &TypedValue) -> (res: Result<
    TypedValue,
    TypeError,
>)
    ensures
        checked(res, spec_tck_app(f as nat, context_of(*ctx), g@, a@)),
    decreases f, 1nat, 0nat,
{
    let tg = match type_of_value(g) {
        Err(e) => return Err(e),
        Ok(tg) => tg,
    };
    match whnf(&tg.to_value(), f) {
        None => err(ctx, TypeMessage::BudgetExhausted),
        Some(Expr::Pi(x, tx, tb)) => {
            let ta = match type_of_value(a) {
                Err(e) => return Err(e),
                Ok(ta) => ta,
            };
            match same(f, ctx, &ta.to_value(), &tx) {
                Err(e) => Err(e),
                Ok(false) => err(ctx, TypeMessage::TypeMismatch(g.to_value(), *tx, a.to_value())),
                Ok(true) => match subst_shift(&V(x, 0), &a.to_value(), &tb) {
                    None => err(ctx, TypeMessage::BudgetExhausted),
                    Some(res) => mktype(f, ctx, &res),
                },
            }
        },
        Some(_) => err(ctx, TypeMessage::NotAFunction(g.to_value())),
    }
}

fn tck_constructor(f: u64, ctx: &TypecheckContext, r: &TypedValue, t: &Expr) -> (res: Result<
    TypedValue,
    TypeError,
>)
    ensures
        checked(
            res,
            match spec_mktype(f as nat, context_of(*ctx), t@) {
                Err(e) => Err(e),
                Ok(tt) => match spec_shift_typed(1, "_"@, 0, r@) {
                    None => Err(spent(context_of(*ctx))),
                    Some(r2) => spec_tck_pi_type(f as nat, context_of(*ctx), "_"@, tt, r2),
                },
            },
        ),
    decreases f, 1nat, 0nat,
{
    let tt = match mktype(f, ctx, t) {
        Err(e) => return Err(e),
        Ok(tt) => tt,
    };
    let under = mk_name("_");
    match r.shift(1, &under) {
        None => err(ctx, TypeMessage::BudgetExhausted),
        Some(r2) => tck_pi_type(f, ctx, &under, &tt, &r2),
    }
}

fn tck_field(f: u64, ctx: &TypecheckContext, r: &TypedValue, x: &String) -> (res: Result<
    TypedValue,
    TypeError,
>)
    ensures
        checked(res, spec_tck_field(f as nat, context_of(*ctx), r@, x@)),
    decreases f, 2nat, 0nat,
{
    let tr = match type_of_value(r) {
        Err(e) => return Err(e),
        Ok(tr) => tr,
    };
    match record_fields(f, ctx, &tr.to_value()) {
        Err(e) => Err(e),
        Ok(Some(kts)) => match find_field(&kts, x) {
            Some(i) => mktype(f, ctx, &kts[i].1),
            None => err(ctx, TypeMessage::MissingRecordField(x.clone(), r.to_value())),
        },
        Ok(None) => match union_alternatives(f, ctx, &r.to_value()) {
            Err(e) => Err(e),
            Ok(None) => err(ctx, TypeMessage::NotARecord(x.clone(), r.to_value())),
            Ok(Some(kts)) => match find_alternative(&kts, x) {
                None => err(ctx, TypeMessage::MissingUnionField(x.clone(), r.to_value())),
                Some(i) => match &kts[i].1 {
                    None => Ok(clone_typed(r)),
                    Some(t) => tck_constructor(f, ctx, r, t),
                },
            },
        },
    }
}

fn tck_prefer(f: u64, ctx: &TypecheckContext, l: &TypedValue, r: &TypedValue) -> (res: Result<
    TypedValue,
    TypeError,
>)
    ensures
        checked(res, spec_tck_prefer(f as nat, context_of(*ctx), l@, r@)),
    decreases f, 1nat, 0nat,
{
    match merge_operands(f, ctx, l, r) {
        Err(e) => Err(e),
        Ok((kl, kr)) => {
            let t = Expr::RecordType(merge_fields(MergeMode::Prefer, &kl, &kr));
            mktype(f, ctx, &t)
        },
    }
}

fn tck_combine(f: u64, ctx: &TypecheckContext, l: &TypedValue, r: &TypedValue) -> (res: Result<
    TypedValue,
    TypeError,
>)
    ensures
        checked(res, spec_tck_combine(f as nat, context_of(*ctx), l@, r@)),
    decreases f, 1nat, 0nat,
{
    match merge_operands(f, ctx, l, r) {
        Err(e) => Err(e),
        Ok((kl, kr)) => match combine(f, ctx, &kl, &kr) {
            Err(e) => Err(e),
            Ok(c) => {
                let t = Expr::RecordType(c);
                mktype(f, ctx, &t)
            },
        },
    }
}

fn tck_binop(f: u64, ctx: &TypecheckContext, o: BinOp, l: &TypedValue, r: &TypedValue) -> (res:
    Result<TypedValue, TypeError>)
    ensures
        checked(res, spec_tck_binop(f as nat, context_of(*ctx), o, l@, r@)),
    decreases f, 2nat, 0nat,
{
    match o {
        BinOp::RightBiasedRecordMerge => tck_prefer(f, ctx, l, r),
        BinOp::RecursiveRecordMerge => tck_combine(f, ctx, l, r),
        BinOp::RecursiveRecordTypeMerge => tck_combine_types(f, ctx, l, r),
        BinOp::ListAppend => tck_list_append(f, ctx, l, r),
        BinOp::Equivalence => tck_equivalence(f, ctx, l, r),
        _ => tck_simple_op(f, ctx, o, l, r),
    }
}

/// Checks the type expression `t`, which a rule took out of another type.
pub fn mktype(f: u64, ctx: &TypecheckContext, t: &Expr) -> (res: Result<TypedValue, TypeError>)
    ensures
        checked(res, spec_mktype(f as nat, context_of(*ctx), t@)),
    decreases f, 0nat, 0nat,
{
    if f == 0 {
        return err(ctx, TypeMessage::BudgetExhausted);
    }
    let types = ctx.types_only();
    type_with(&types, t, f - 1)
}

proof fn lemma_type_fields_stays(f: nat, ctx: Bindings, fs: Fields, k: nat, n: nat)
    requires
        k <= n <= fs.len(),
        spec_type_fields(f, ctx, fs, k) is Err,
    ensures
        spec_type_fields(f, ctx, fs, n) == spec_type_fields(f, ctx, fs, k),
    decreases n,
{
    if k < n {
        lemma_type_fields_stays(f, ctx, fs, k, (n - 1) as nat);
    }
}

proof fn lemma_type_terms_stays(f: nat, ctx: Bindings, ts: Seq<Term>, k: nat, n: nat)
    requires
        k <= n <= ts.len(),
        spec_type_terms(f, ctx, ts, k) is Err,
    ensures
        spec_type_terms(f, ctx, ts, n) == spec_type_terms(f, ctx, ts, k),
    decreases n,
{
    if k < n {
        lemma_type_terms_stays(f, ctx, ts, k, (n - 1) as nat);
    }
}

proof fn lemma_type_alts_stays(f: nat, ctx: Bindings, fs: Alternatives, k: nat, n: nat)
    requires
        k <= n <= fs.len(),
        spec_type_alts(f, ctx, fs, k) is Err,
    ensures
        spec_type_alts(f, ctx, fs, n) == spec_type_alts(f, ctx, fs, k),
    decreases n,
{
    if k < n {
        lemma_type_alts_stays(f, ctx, fs, k, (n - 1) as nat);
    }
}

fn type_fields(f: u64, ctx: &TypecheckContext, fs: &Vec<(String, Expr)>) -> (res: Result<
    Vec<(String, TypedValue)>,
    TypeError,
>)
    ensures
        match res {
            Ok(v) => spec_type_fields(f as nat, context_of(*ctx), fields_of(*fs), fs.len() as nat)
                == Ok::<TypedFields, Failure>(typed_fields_of(v)),
            Err(e) => spec_type_fields(f as nat, context_of(*ctx), fields_of(*fs), fs.len() as nat)
                == Err::<TypedFields, Failure>(e@),
        },
    decreases f, 1nat, 0nat,
{
    let mut out: Vec<(String, TypedValue)> = Vec::new();
    assert(typed_fields_of(out) =~= Seq::empty());
    let mut i: usize = 0;
    while i < fs.len()
        invariant
            i <= fs.len(),
            spec_type_fields(f as nat, context_of(*ctx), fields_of(*fs), i as nat) == Ok::<
                TypedFields,
                Failure,
            >(typed_fields_of(out)),
        decreases fs.len() - i,
    {
        match type_with(ctx, &fs[i].1, f) {
            Err(e) => {
                proof {
                    lemma_type_fields_stays(
                        f as nat,
                        context_of(*ctx),
                        fields_of(*fs),
                        (i + 1) as nat,
                        fs.len() as nat,
                    );
                }
                return Err(e);
            },
            Ok(t) => {
                let ghost prev = typed_fields_of(out);
                out.push((fs[i].0.clone(), t));
                assert(typed_fields_of(out) =~= prev.push((fs[i as int].0@, t@)));
            },
        }
        i += 1;
    }
    Ok(out)
}

fn type_terms(f: u64, ctx: &TypecheckContext, ts: &Vec<Expr>) -> (res: Result<
    Vec<TypedValue>,
    TypeError,
>)
    ensures
        match res {
            Ok(v) => spec_type_terms(f as nat, context_of(*ctx), terms_of(*ts), ts.len() as nat)
                == Ok::<Seq<TypedTerm>, Failure>(typed_terms_of(v)),
            Err(e) => spec_type_terms(f as nat, context_of(*ctx), terms_of(*ts), ts.len() as nat)
                == Err::<Seq<TypedTerm>, Failure>(e@),
        },
    decreases f, 1nat, 0nat,
{
    let mut out: Vec<TypedValue> = Vec::new();
    assert(typed_terms_of(out) =~= Seq::empty());
    let mut i: usize = 0;
    while i < ts.len()
        invariant
            i <= ts.len(),
            spec_type_terms(f as nat, context_of(*ctx), terms_of(*ts), i as nat) == Ok::<
                Seq<TypedTerm>,
                Failure,
            >(typed_terms_of(out)),
        decreases ts.len() - i,
    {
        match type_with(ctx, &ts[i], f) {
            Err(e) => {
                proof {
                    lemma_type_terms_stays(
                        f as nat,
                        context_of(*ctx),
                        terms_of(*ts),
                        (i + 1) as nat,
                        ts.len() as nat,
                    );
                }
                return Err(e);
            },
            Ok(t) => {
                let ghost prev = typed_terms_of(out);
                out.push(t);
                assert(typed_terms_of(out) =~= prev.push(t@));
            },
        }
        i += 1;
    }
    Ok(out)
}

fn type_alts(f: u64, ctx: &TypecheckContext, fs: &Vec<(String, Option<Expr>)>) -> (res: Result<
    Vec<(String, Option<TypedValue>)>,
    TypeError,
>)
    ensures
        match res {
            Ok(v) => spec_type_alts(
                f as nat,
                context_of(*ctx),
                alternatives_of(*fs),
                fs.len() as nat,
            ) == Ok::<Seq<(Name, Option<TypedTerm>)>, Failure>(typed_alts_of(v)),
            Err(e) => spec_type_alts(
                f as nat,
                context_of(*ctx),
                alternatives_of(*fs),
                fs.len() as nat,
            ) == Err::<Seq<(Name, Option<TypedTerm>)>, Failure>(e@),
        },
    decreases f, 1nat, 0nat,
{
    let mut out: Vec<(String, Option<TypedValue>)> = Vec::new();
    assert(typed_alts_of(out) =~= Seq::empty());
    let mut i: usize = 0;
    while i < fs.len()
        invariant
            i <= fs.len(),
            spec_type_alts(f as nat, context_of(*ctx), alternatives_of(*fs), i as nat) == Ok::<
                Seq<(Name, Option<TypedTerm>)>,
                Failure,
            >(typed_alts_of(out)),
        decreases fs.len() - i,
    {
        let ghost prev = typed_alts_of(out);
        match &fs[i].1 {
            None => {
                out.push((fs[i].0.clone(), None));
                assert(typed_alts_of(out) =~= prev.push((fs[i as int].0@, None)));
            },
            Some(t0) => match type_with(ctx, t0, f) {
                Err(e) => {
                    proof {
                        lemma_type_alts_stays(
                            f as nat,
                            context_of(*ctx),
                            alternatives_of(*fs),
                            (i + 1) as nat,
                            fs.len() as nat,
                        );
                    }
                    return Err(e);
                },
                Ok(t) => {
                    out.push((fs[i].0.clone(), Some(t)));
                    assert(typed_alts_of(out) =~= prev.push((fs[i as int].0@, Some(t@))));
                },
            },
        }
        i += 1;
    }
    Ok(out)
}

fn type_lam(f: u64, ctx: &TypecheckContext, x: &String, t: &Expr, b: &Expr) -> (res: Result<
    TypedValue,
    TypeError,
>)
    ensures
        checked(res, spec_type_lam(f as nat, context_of(*ctx), x@, t@, b@)),
    decreases f, 3nat, 0nat,
{
    let tx = match type_with(ctx, t, f) {
        Err(e) => return Err(e),
        Ok(tx) => tx,
    };
    let ctx2 = match ctx.insert_type(x, &tx) {
        None => return err(ctx, TypeMessage::BudgetExhausted),
        Some(ctx2) => ctx2,
    };
    let tb = match type_with(&ctx2, b, f) {
        Err(e) => return Err(e),
        Ok(tb) => tb,
    };
    let ttb = match type_of_value(&tb) {
        Err(e) => return Err(e),
        Ok(ttb) => ttb,
    };
    match tck_pi_type(f, ctx, x, &tx, &ttb) {
            Ok(t) => Ok(mk_typed(Expr::Lam(x.clone(), Box::new(tx.to_value()), Box::new(tb.to_value())), t)),
            Err(e) => Err(e),
        }
}

fn type_pi(f: u64, ctx: &TypecheckContext, x: &String, t: &Expr, b: &Expr) -> (res: Result<
    TypedValue,
    TypeError,
>)
    ensures
        checked(res, spec_type_pi(f as nat, context_of(*ctx), x@, t@, b@)),
    decreases f, 3nat, 0nat,
{
    let tx = match type_with(ctx, t, f) {
        Err(e) => return Err(e),
        Ok(tx) => tx,
    };
    let ctx2 = match ctx.insert_type(x, &tx) {
        None => return err(ctx, TypeMessage::BudgetExhausted),
        Some(ctx2) => ctx2,
    };
    let tb = match type_with(&ctx2, b, f) {
        Err(e) => return Err(e),
        Ok(tb) => tb,
    };
    tck_pi_type(f, ctx, x, &tx, &tb)
}

fn type_let(
    f: u64,
    ctx: &TypecheckContext,
    x: &String,
    ot: &Option<Box<Expr>>,
    v: &Expr,
    b: &Expr,
) -> (res: Result<TypedValue, TypeError>)
    ensures
        checked(
            res,
            spec_type_let(f as nat, context_of(*ctx), x@, opt_box_term_of(*ot), v@, b@),
        ),
    decreases f, 3nat, 0nat,
{
    let tv = match ot {
        Some(t) => {
            let annotated = Expr::Annot(Box::new(clone_expr(v)), Box::new(clone_expr(t)));
            type_with(ctx, &annotated, f)
        },
        None => type_with(ctx, v, f),
    };
    match tv {
        Err(e) => Err(e),
        Ok(tv) => {
            let ctx2 = ctx.insert_value(x, &tv);
            type_with(&ctx2, b, f)
        },
    }
}

fn type_one(f: u64, ctx: &TypecheckContext, e: &Expr, a: &Expr) -> (res: Result<
    TypedValue,
    TypeError,
>)
    ensures
        checked(res, spec_type_one(f as nat, context_of(*ctx), e@, a@)),
    decreases f, 3nat, 0nat,
{
    let ta = match type_with(ctx, a, f) {
        Err(e) => return Err(e),
        Ok(ta) => ta,
    };
    match e {
        Expr::Assert(_) => match tck_assert(f, ctx, &ta) {
            Ok(t) => Ok(mk_typed(Expr::Assert(Box::new(ta.to_value())), t)),
            Err(e) => Err(e),
        },
        Expr::EmptyListLit(_) => match tck_empty_list(f, ctx, &ta) {
            Ok(t) => Ok(mk_typed(Expr::EmptyListLit(Box::new(ta.to_value())), t)),
            Err(e) => Err(e),
        },
        Expr::SomeLit(_) => match tck_some(f, ctx, &ta) {
            Ok(t) => Ok(mk_typed(Expr::SomeLit(Box::new(ta.to_value())), t)),
            Err(e) => Err(e),
        },
        Expr::Field(_, x) => match tck_field(f, ctx, &ta, x) {
            Ok(t) => Ok(mk_typed(Expr::Field(Box::new(ta.to_value()), x.clone()), t)),
            Err(e) => Err(e),
        },
        Expr::Projection(_, ls) => match tck_projection(f, ctx, &ta, ls) {
            Ok(t) => Ok(mk_typed(Expr::Projection(Box::new(ta.to_value()), clone_names(ls)), t)),
            Err(e) => Err(e),
        },
        _ => err(ctx, TypeMessage::BudgetExhausted),
    }
}

fn type_two(f: u64, ctx: &TypecheckContext, e: &Expr, a: &Expr, b: &Expr) -> (res: Result<
    TypedValue,
    TypeError,
>)
    ensures
        checked(res, spec_type_two(f as nat, context_of(*ctx), e@, a@, b@)),
    decreases f, 3nat, 0nat,
{
    let ta = match type_with(ctx, a, f) {
        Err(e) => return Err(e),
        Ok(ta) => ta,
    };
    let tb = match type_with(ctx, b, f) {
        Err(e) => return Err(e),
        Ok(tb) => tb,
    };
    match e {
        Expr::App(_, _) => match tck_app(f, ctx, &ta, &tb) {
            Ok(t) => Ok(mk_typed(mk_app(ta.to_value(), tb.to_value()), t)),
            Err(e) => Err(e),
        },
        Expr::Annot(_, _) => match tck_annot(f, ctx, &ta, &tb) {
            Ok(t) => Ok(mk_typed(Expr::Annot(Box::new(ta.to_value()), Box::new(tb.to_value())), t)),
            Err(e) => Err(e),
        },
        Expr::BinOp(o, _, _) => match tck_binop(f, ctx, *o, &ta, &tb) {
            Ok(t) => Ok(mk_typed(Expr::BinOp(*o, Box::new(ta.to_value()), Box::new(tb.to_value())), t)),
            Err(e) => Err(e),
        },
        _ => err(ctx, TypeMessage::BudgetExhausted),
    }
}

fn type_if(f: u64, ctx: &TypecheckContext, c: &Expr, a: &Expr, b: &Expr) -> (res: Result<
    TypedValue,
    TypeError,
>)
    ensures
        checked(res, spec_type_if(f as nat, context_of(*ctx), c@, a@, b@)),
    decreases f, 3nat, 0nat,
{
    let tc = match type_with(ctx, c, f) {
        Err(e) => return Err(e),
        Ok(tc) => tc,
    };
    let ta = match type_with(ctx, a, f) {
        Err(e) => return Err(e),
        Ok(ta) => ta,
    };
    let tb = match type_with(ctx, b, f) {
        Err(e) => return Err(e),
        Ok(tb) => tb,
    };
    match tck_if(f, ctx, &tc, &ta, &tb) {
            Ok(t) => Ok(mk_typed(Expr::BoolIf(Box::new(tc.to_value()), Box::new(ta.to_value()), Box::new(tb.to_value())), t)),
            Err(e) => Err(e),
        }
}

fn type_merge(f: u64, ctx: &TypecheckContext, r: &Expr, u: &Expr, ot: &Option<Box<Expr>>) -> (res:
    Result<TypedValue, TypeError>)
    ensures
        checked(res, spec_type_merge(f as nat, context_of(*ctx), r@, u@, opt_box_term_of(*ot))),
    decreases f, 3nat, 0nat,
{
    let tr = match type_with(ctx, r, f) {
        Err(e) => return Err(e),
        Ok(tr) => tr,
    };
    let tu = match type_with(ctx, u, f) {
        Err(e) => return Err(e),
        Ok(tu) => tu,
    };
    match ot {
        None => match tck_merge(f, ctx, &tr, &tu, &None) {
            Ok(t) => Ok(mk_typed(Expr::Merge(Box::new(tr.to_value()), Box::new(tu.to_value()), None), t)),
            Err(e) => Err(e),
        },
        Some(t) => {
            let tt = match type_with(ctx, t, f) {
                Err(e) => return Err(e),
                Ok(tt) => tt,
            };
            let v = Expr::Merge(
                Box::new(tr.to_value()),
                Box::new(tu.to_value()),
                Some(Box::new(tt.to_value())),
            );
            match tck_merge(f, ctx, &tr, &tu, &Some(tt)) {
            Ok(t) => Ok(mk_typed(v, t)),
            Err(e) => Err(e),
        }
        },
    }
}

fn type_many(f: u64, ctx: &TypecheckContext, e: &Expr) -> (res: Result<TypedValue, TypeError>)
    ensures
        checked(res, spec_type_many(f as nat, context_of(*ctx), e@)),
    decreases f, 3nat, 0nat,
{
    match e {
        Expr::TextLit(chunks, tail) => match type_fields(f, ctx, chunks) {
            Err(e) => Err(e),
            Ok(tc) => match tck_text(f, ctx, &tc) {
            Ok(t) => Ok(mk_typed(Expr::TextLit(field_values(&tc), tail.clone()), t)),
            Err(e) => Err(e),
        },
        },
        Expr::NEListLit(x, xs) => {
            let tx = match type_with(ctx, x, f) {
                Err(e) => return Err(e),
                Ok(tx) => tx,
            };
            match type_terms(f, ctx, xs) {
                Err(e) => Err(e),
                Ok(txs) => match tck_list(f, ctx, &tx, &txs) {
            Ok(t) => Ok(mk_typed(Expr::NEListLit(Box::new(tx.to_value()), term_values(&txs)), t)),
            Err(e) => Err(e),
        },
            }
        },
        Expr::RecordType(fs) => match type_fields(f, ctx, fs) {
            Err(e) => Err(e),
            Ok(kts) => tck_record_type(f, ctx, &kts),
        },
        Expr::RecordLit(fs) => match type_fields(f, ctx, fs) {
            Err(e) => Err(e),
            Ok(kvs) => match tck_record_lit(f, ctx, &kvs) {
            Ok(t) => Ok(mk_typed(Expr::RecordLit(field_values(&kvs)), t)),
            Err(e) => Err(e),
        },
        },
        Expr::UnionType(fs) => match type_alts(f, ctx, fs) {
            Err(e) => Err(e),
            Ok(kts) => tck_union_type(f, ctx, &kts),
        },
        _ => err(ctx, TypeMessage::BudgetExhausted),
    }
}

/// Checks the expression `e` in the context `ctx` within the budget
/// `fuel`, and gives its value with its type, or the first error.
pub fn type_with(ctx: &TypecheckContext, e: &Expr, fuel: u64) -> (res: Result<TypedValue, TypeError>)
    ensures
        checked(res, spec_type_with(fuel as nat, context_of(*ctx), e@)),
    decreases fuel, 0nat, 0nat,
{
    if fuel == 0 {
        return err(ctx, TypeMessage::BudgetExhausted);
    }
    let f = fuel - 1;
    match e {
        Expr::Const(c) => Ok(TypedValue::Const(*c)),
        Expr::Var(v) => match ctx.lookup(v) {
            Some(tv) => Ok(tv),
            None => err(ctx, TypeMessage::UnboundVariable(clone_var(v))),
        },
        Expr::Lam(x, t, b) => type_lam(f, ctx, x, t, b),
        Expr::Pi(x, t, b) => type_pi(f, ctx, x, t, b),
        Expr::Let(x, ot, v, b) => type_let(f, ctx, x, ot, v, b),
        Expr::Builtin(b) => {
            let table = type_of_builtin(*b);
            match type_with(ctx, &table, f) {
            Ok(t) => Ok(mk_typed(clone_expr(e), t)),
            Err(e) => Err(e),
        }
        },
        Expr::BoolLit(_) => Ok(mk_typed(clone_expr(e), mk_simple_type(Builtin::Bool))),
        Expr::NaturalLit(_) => Ok(mk_typed(clone_expr(e), mk_simple_type(Builtin::Natural))),
        Expr::IntegerLit(_) => Ok(mk_typed(clone_expr(e), mk_simple_type(Builtin::Integer))),
        Expr::DoubleLit(_) => Ok(mk_typed(clone_expr(e), mk_simple_type(Builtin::Double))),
        Expr::Assert(a) | Expr::EmptyListLit(a) | Expr::SomeLit(a) => type_one(f, ctx, e, a),
        Expr::Field(a, _) => type_one(f, ctx, e, a),
        Expr::Projection(a, _) => type_one(f, ctx, e, a),
        Expr::App(a, b) | Expr::Annot(a, b) => type_two(f, ctx, e, a, b),
        Expr::BinOp(_, a, b) => type_two(f, ctx, e, a, b),
        Expr::BoolIf(c, a, b) => type_if(f, ctx, c, a, b),
        Expr::Merge(r, u, ot) => type_merge(f, ctx, r, u, ot),
        Expr::TextLit(_, _) | Expr::NEListLit(_, _) | Expr::RecordType(_) | Expr::RecordLit(_)
        | Expr::UnionType(_) => type_many(f, ctx, e),
    }
}

/// Checks the closed expression `e` within the budget `fuel`: in the
/// empty context, where a free variable is unbound, and `e` must have a
/// type, which `Sort` has not.
pub fn type_of(e: &Expr, fuel: u64) -> (res: Result<TypedValue, TypeError>)
    ensures
        checked(res, spec_typecheck(fuel as nat, e@)),
{
    let ctx = TypecheckContext::new();
    match type_with(&ctx, e, fuel) {
        Err(e) => Err(e),
        Ok(tv) => match type_of_value(&tv) {
            Err(e) => Err(e),
            Ok(_) => Ok(tv),
        },
    }
}

/// The type of the built-in `b` as a typed value.
pub fn builtin_to_type(b: Builtin, fuel: u64) -> (res: Result<TypedValue, TypeError>)
    ensures
        checked(res, spec_type_with(fuel as nat, Seq::empty(), Term::Builtin(b))),
{
    type_with(&TypecheckContext::new(), &Expr::Builtin(b), fuel)
}

/// The budget of `typecheck` and of `normalize`: the depth to which
/// checking and reduction may go. It is the depth that the calls of the
/// checker reach, so the budget is chosen for the stack of a thread;
/// `Resolved::typecheck_within` takes another.
pub const DEFAULT_BUDGET: u64 = 512;

/// An expression in which every import has been resolved, ready to be
/// checked.
#[derive(Debug, PartialEq, Eq)]
pub struct Resolved(pub Expr);

impl Resolved {
    /// Checks the expression, which must be closed, within the default
    /// budget.
    pub fn typecheck(self) -> (res: Result<TypedValue, TypeError>)
        ensures
            checked(res, spec_typecheck(DEFAULT_BUDGET as nat, self.0@)),
    {
        type_of(&self.0, DEFAULT_BUDGET)
    }

    /// Checks the expression within the budget `fuel`.
    pub fn typecheck_within(self, fuel: u64) -> (res: Result<TypedValue, TypeError>)
        ensures
            checked(res, spec_typecheck(fuel as nat, self.0@)),
    {
        type_of(&self.0, fuel)
    }

    /// Checks the expression against the type `ty`: as the expression
    /// annotated with `ty`.
    pub fn typecheck_with(self, ty: &Expr) -> (res: Result<TypedValue, TypeError>)
        ensures
            checked(res, spec_typecheck_with(DEFAULT_BUDGET as nat, self.0@, ty@)),
    {
        let annotated = Expr::Annot(Box::new(self.0), Box::new(clone_expr(ty)));
        type_of(&annotated, DEFAULT_BUDGET)
    }

    /// Takes the expression on trust: the value is the expression as it
    /// is, and it has no type.
    pub fn skip_typecheck(self) -> (res: TypedValue)
        ensures
            res@ == TypedTerm::Untyped(self.0@),
    {
        TypedValue::Untyped(self.0)
    }
}

/// The normal form of a typed value, within the default budget.
pub fn normalize(tv: &TypedValue) -> (r: Option<Expr>)
    ensures
        crate::normalize::agrees(r, crate::normalize::spec_nf(DEFAULT_BUDGET as nat, value_of(tv@))),
{
    crate::normalize::nf(&tv.to_value(), DEFAULT_BUDGET)
}

} // verus!
