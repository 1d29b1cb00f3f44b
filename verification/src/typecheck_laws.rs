//! The budget is no part of an answer: what the checker finds within one
//! budget, it finds within every greater one.

use vstd::prelude::*;
use crate::context::{spec_insert_type, spec_insert_value, spec_types_only, Bindings};
use crate::equality::spec_equal;
use crate::error::Failure;
use crate::normalize::spec_whnf;
use crate::normalize_laws::{lemma_equal_more, lemma_whnf_more};
use crate::record::{index_of, spec_merge_fields, MergeMode};
use crate::syntax::{Alternatives, BinOp, Builtin, Fields, Name, Term};
use crate::builtins::spec_type_of_builtin;
use crate::typecheck::{
    operand_type, spec_combine, spec_combine_left, spec_const_of, spec_container,
    spec_handler_result, spec_handlers, spec_has_type, spec_is_term, spec_merge_operands,
    spec_merge_parts, spec_mktype, spec_record_fields, spec_record_kind, spec_same,
    spec_same_elements, spec_same_type, spec_tck_annot, spec_tck_app, spec_tck_assert,
    spec_tck_binop, spec_tck_combine, spec_tck_combine_types, spec_tck_empty_list,
    spec_tck_equivalence, spec_tck_field, spec_tck_if, spec_tck_list, spec_tck_list_append,
    spec_tck_merge, spec_tck_pi_type, spec_tck_prefer, spec_tck_projection, spec_tck_record_lit,
    spec_tck_record_type, spec_tck_simple_op, spec_tck_some, spec_tck_text, spec_tck_union_type,
    spec_text_chunks, spec_type_alts, spec_type_fields, spec_type_if, spec_type_lam, spec_type_let,
    spec_type_many, spec_type_merge, spec_type_of, spec_type_one, spec_type_pi, spec_type_terms,
    spec_type_two, spec_type_with, spec_typecheck, spec_types_of_fields, spec_union_alternatives,
    spec_union_kind, spec_universe_of, TypedFields,
};
use crate::typed::{spec_shift_typed, value_of, TypedTerm};
use crate::var::spec_subst_shift;

verus! {

/// A result that is an answer: anything but the failure of a spent
/// budget.
pub open spec fn settled<T>(r: Result<T, Failure>) -> bool {
    !(r matches Err(e) && e.message is BudgetExhausted)
}

proof fn lemma_const_of_more(f: nat, f2: nat, ctx: Bindings, tv: TypedTerm)
    requires
        f <= f2,
    ensures
        settled(spec_const_of(f, ctx, tv)) ==> spec_const_of(f2, ctx, tv) == spec_const_of(
            f,
            ctx,
            tv,
        ),
{
    if spec_whnf(f, value_of(tv)) is Some {
        lemma_whnf_more(f, f2, value_of(tv));
    }
}

proof fn lemma_universe_of_more(f: nat, f2: nat, ctx: Bindings, tv: TypedTerm)
    requires
        f <= f2,
    ensures
        settled(spec_universe_of(f, ctx, tv)) ==> spec_universe_of(f2, ctx, tv)
            == spec_universe_of(f, ctx, tv),
{
    lemma_const_of_more(f, f2, ctx, spec_type_of(tv)->Ok_0);
}

proof fn lemma_same_more(f: nat, f2: nat, ctx: Bindings, a: Term, b: Term)
    requires
        f <= f2,
    ensures
        settled(spec_same(f, ctx, a, b)) ==> spec_same(f2, ctx, a, b) == spec_same(f, ctx, a, b),
{
    if spec_equal(f, a, b) is Some {
        lemma_equal_more(f, f2, a, b);
    }
}

proof fn lemma_same_type_more(f: nat, f2: nat, ctx: Bindings, a: TypedTerm, b: TypedTerm)
    requires
        f <= f2,
    ensures
        settled(spec_same_type(f, ctx, a, b)) ==> spec_same_type(f2, ctx, a, b) == spec_same_type(
            f,
            ctx,
            a,
            b,
        ),
{
    lemma_same_more(f, f2, ctx, value_of(spec_type_of(a)->Ok_0), value_of(spec_type_of(b)->Ok_0));
}

proof fn lemma_has_type_more(f: nat, f2: nat, ctx: Bindings, a: TypedTerm, b: Builtin)
    requires
        f <= f2,
    ensures
        settled(spec_has_type(f, ctx, a, b)) ==> spec_has_type(f2, ctx, a, b) == spec_has_type(
            f,
            ctx,
            a,
            b,
        ),
{
    lemma_same_more(f, f2, ctx, value_of(spec_type_of(a)->Ok_0), Term::Builtin(b));
}

proof fn lemma_is_term_more(f: nat, f2: nat, ctx: Bindings, y: TypedTerm)
    requires
        f <= f2,
    ensures
        settled(spec_is_term(f, ctx, y)) ==> spec_is_term(f2, ctx, y) == spec_is_term(f, ctx, y),
{
    lemma_universe_of_more(f, f2, ctx, spec_type_of(y)->Ok_0);
}

proof fn lemma_record_fields_more(f: nat, f2: nat, ctx: Bindings, t: Term)
    requires
        f <= f2,
    ensures
        settled(spec_record_fields(f, ctx, t)) ==> spec_record_fields(f2, ctx, t)
            == spec_record_fields(f, ctx, t),
{
    if spec_whnf(f, t) is Some {
        lemma_whnf_more(f, f2, t);
    }
}

proof fn lemma_union_alternatives_more(f: nat, f2: nat, ctx: Bindings, t: Term)
    requires
        f <= f2,
    ensures
        settled(spec_union_alternatives(f, ctx, t)) ==> spec_union_alternatives(f2, ctx, t)
            == spec_union_alternatives(f, ctx, t),
{
    if spec_whnf(f, t) is Some {
        lemma_whnf_more(f, f2, t);
    }
}

proof fn lemma_tck_pi_type_more(f: nat, f2: nat, ctx: Bindings, x: Name, tx: TypedTerm, te: TypedTerm)
    requires
        f <= f2,
    ensures
        settled(spec_tck_pi_type(f, ctx, x, tx, te)) ==> spec_tck_pi_type(f2, ctx, x, tx, te)
            == spec_tck_pi_type(f, ctx, x, tx, te),
{
    reveal(spec_tck_pi_type);
    lemma_universe_of_more(f, f2, ctx, tx);
    lemma_universe_of_more(f, f2, ctx, te);
}

proof fn lemma_record_kind_more(f: nat, f2: nat, ctx: Bindings, kts: TypedFields, n: nat)
    requires
        f <= f2,
    ensures
        settled(spec_record_kind(f, ctx, kts, n)) ==> spec_record_kind(f2, ctx, kts, n)
            == spec_record_kind(f, ctx, kts, n),
    decreases n,
{
    if !(n == 0 || n > kts.len()) {
        lemma_record_kind_more(f, f2, ctx, kts, (n - 1) as nat);
        lemma_universe_of_more(f, f2, ctx, kts[n - 1].1);
    }
}

proof fn lemma_union_kind_more(
    f: nat,
    f2: nat,
    ctx: Bindings,
    kts: Seq<(Name, Option<TypedTerm>)>,
    n: nat,
)
    requires
        f <= f2,
    ensures
        settled(spec_union_kind(f, ctx, kts, n)) ==> spec_union_kind(f2, ctx, kts, n)
            == spec_union_kind(f, ctx, kts, n),
    decreases n,
{
    if !(n == 0 || n > kts.len()) {
        lemma_union_kind_more(f, f2, ctx, kts, (n - 1) as nat);
        match kts[n - 1].1 {
            Some(t) => lemma_universe_of_more(f, f2, ctx, t),
            None => {},
        }
    }
}

proof fn lemma_tck_record_type_more(f: nat, f2: nat, ctx: Bindings, kts: TypedFields)
    requires
        f <= f2,
    ensures
        settled(spec_tck_record_type(f, ctx, kts)) ==> spec_tck_record_type(f2, ctx, kts)
            == spec_tck_record_type(f, ctx, kts),
{
    reveal(spec_tck_record_type);
    lemma_record_kind_more(f, f2, ctx, kts, kts.len());
}

proof fn lemma_tck_union_type_more(f: nat, f2: nat, ctx: Bindings, kts: Seq<(Name, Option<TypedTerm>)>)
    requires
        f <= f2,
    ensures
        settled(spec_tck_union_type(f, ctx, kts)) ==> spec_tck_union_type(f2, ctx, kts)
            == spec_tck_union_type(f, ctx, kts),
{
    reveal(spec_tck_union_type);
    lemma_union_kind_more(f, f2, ctx, kts, kts.len());
}

proof fn lemma_tck_annot_more(f: nat, f2: nat, ctx: Bindings, x: TypedTerm, t: TypedTerm)
    requires
        f <= f2,
    ensures
        settled(spec_tck_annot(f, ctx, x, t)) ==> spec_tck_annot(f2, ctx, x, t) == spec_tck_annot(
            f,
            ctx,
            x,
            t,
        ),
{
    reveal(spec_tck_annot);
    lemma_same_more(f, f2, ctx, value_of(t), value_of(spec_type_of(x)->Ok_0));
}

proof fn lemma_tck_assert_more(f: nat, f2: nat, ctx: Bindings, t: TypedTerm)
    requires
        f <= f2,
    ensures
        settled(spec_tck_assert(f, ctx, t)) ==> spec_tck_assert(f2, ctx, t) == spec_tck_assert(
            f,
            ctx,
            t,
        ),
{
    reveal(spec_tck_assert);
    if spec_whnf(f, value_of(t)) is Some {
        lemma_whnf_more(f, f2, value_of(t));
        match spec_whnf(f, value_of(t)) {
            Some(Term::BinOp(BinOp::Equivalence, x, y)) => lemma_same_more(f, f2, ctx, *x, *y),
            _ => {},
        }
    }
}

proof fn lemma_tck_if_more(f: nat, f2: nat, ctx: Bindings, x: TypedTerm, y: TypedTerm, z: TypedTerm)
    requires
        f <= f2,
    ensures
        settled(spec_tck_if(f, ctx, x, y, z)) ==> spec_tck_if(f2, ctx, x, y, z) == spec_tck_if(
            f,
            ctx,
            x,
            y,
            z,
        ),
{
    reveal(spec_tck_if);
    lemma_has_type_more(f, f2, ctx, x, Builtin::Bool);
    lemma_is_term_more(f, f2, ctx, y);
    lemma_is_term_more(f, f2, ctx, z);
    lemma_same_type_more(f, f2, ctx, y, z);
}

proof fn lemma_tck_empty_list_more(f: nat, f2: nat, ctx: Bindings, t: TypedTerm)
    requires
        f <= f2,
    ensures
        settled(spec_tck_empty_list(f, ctx, t)) ==> spec_tck_empty_list(f2, ctx, t)
            == spec_tck_empty_list(f, ctx, t),
{
    reveal(spec_tck_empty_list);
    if spec_whnf(f, value_of(t)) is Some {
        lemma_whnf_more(f, f2, value_of(t));
    }
}

proof fn lemma_same_elements_more(
    f: nat,
    f2: nat,
    ctx: Bindings,
    x: TypedTerm,
    xs: Seq<TypedTerm>,
    n: nat,
)
    requires
        f <= f2,
    ensures
        settled(spec_same_elements(f, ctx, x, xs, n)) ==> spec_same_elements(f2, ctx, x, xs, n)
            == spec_same_elements(f, ctx, x, xs, n),
    decreases n,
{
    if !(n == 0 || n > xs.len()) {
        lemma_same_elements_more(f, f2, ctx, x, xs, (n - 1) as nat);
        lemma_same_type_more(f, f2, ctx, x, xs[n - 1]);
    }
}

proof fn lemma_container_more(
    f: nat,
    f2: nat,
    ctx: Bindings,
    c: Builtin,
    t: TypedTerm,
    m: crate::error::Message,
)
    requires
        f <= f2,
        !(m is BudgetExhausted),
    ensures
        settled(spec_container(f, ctx, c, t, m)) ==> spec_container(f2, ctx, c, t, m)
            == spec_container(f, ctx, c, t, m),
{
    lemma_universe_of_more(f, f2, ctx, t);
}

proof fn lemma_tck_list_more(f: nat, f2: nat, ctx: Bindings, x: TypedTerm, xs: Seq<TypedTerm>)
    requires
        f <= f2,
    ensures
        settled(spec_tck_list(f, ctx, x, xs)) ==> spec_tck_list(f2, ctx, x, xs) == spec_tck_list(
            f,
            ctx,
            x,
            xs,
        ),
{
    reveal(spec_tck_list);
    lemma_same_elements_more(f, f2, ctx, x, xs, xs.len());
    let t = spec_type_of(x)->Ok_0;
    lemma_container_more(
        f,
        f2,
        ctx,
        Builtin::List,
        t,
        crate::error::Message::InvalidListType(value_of(t)),
    );
}

proof fn lemma_tck_some_more(f: nat, f2: nat, ctx: Bindings, x: TypedTerm)
    requires
        f <= f2,
    ensures
        settled(spec_tck_some(f, ctx, x)) ==> spec_tck_some(f2, ctx, x) == spec_tck_some(
            f,
            ctx,
            x,
        ),
{
    reveal(spec_tck_some);
    let t = spec_type_of(x)->Ok_0;
    lemma_container_more(
        f,
        f2,
        ctx,
        Builtin::Optional,
        t,
        crate::error::Message::InvalidOptionalType(value_of(t)),
    );
}

proof fn lemma_tck_record_lit_more(f: nat, f2: nat, ctx: Bindings, kvs: TypedFields)
    requires
        f <= f2,
    ensures
        settled(spec_tck_record_lit(f, ctx, kvs)) ==> spec_tck_record_lit(f2, ctx, kvs)
            == spec_tck_record_lit(f, ctx, kvs),
{
    reveal(spec_tck_record_lit);
    lemma_tck_record_type_more(f, f2, ctx, spec_types_of_fields(kvs, kvs.len())->Ok_0);
}

proof fn lemma_text_chunks_more(f: nat, f2: nat, ctx: Bindings, chunks: TypedFields, n: nat)
    requires
        f <= f2,
    ensures
        settled(spec_text_chunks(f, ctx, chunks, n)) ==> spec_text_chunks(f2, ctx, chunks, n)
            == spec_text_chunks(f, ctx, chunks, n),
    decreases n,
{
    if !(n == 0 || n > chunks.len()) {
        lemma_text_chunks_more(f, f2, ctx, chunks, (n - 1) as nat);
        lemma_has_type_more(f, f2, ctx, chunks[n - 1].1, Builtin::Text);
    }
}

proof fn lemma_tck_text_more(f: nat, f2: nat, ctx: Bindings, chunks: TypedFields)
    requires
        f <= f2,
    ensures
        settled(spec_tck_text(f, ctx, chunks)) ==> spec_tck_text(f2, ctx, chunks) == spec_tck_text(
            f,
            ctx,
            chunks,
        ),
{
    reveal(spec_tck_text);
    lemma_text_chunks_more(f, f2, ctx, chunks, chunks.len());
}

proof fn lemma_tck_simple_op_more(f: nat, f2: nat, ctx: Bindings, o: BinOp, l: TypedTerm, r: TypedTerm)
    requires
        f <= f2,
    ensures
        settled(spec_tck_simple_op(f, ctx, o, l, r)) ==> spec_tck_simple_op(f2, ctx, o, l, r)
            == spec_tck_simple_op(f, ctx, o, l, r),
{
    reveal(spec_tck_simple_op);
    lemma_has_type_more(f, f2, ctx, l, operand_type(o));
    lemma_has_type_more(f, f2, ctx, r, operand_type(o));
}

proof fn lemma_tck_list_append_more(f: nat, f2: nat, ctx: Bindings, l: TypedTerm, r: TypedTerm)
    requires
        f <= f2,
    ensures
        settled(spec_tck_list_append(f, ctx, l, r)) ==> spec_tck_list_append(f2, ctx, l, r)
            == spec_tck_list_append(f, ctx, l, r),
{
    reveal(spec_tck_list_append);
    let tl = spec_type_of(l)->Ok_0;
    if spec_whnf(f, value_of(tl)) is Some {
        lemma_whnf_more(f, f2, value_of(tl));
    }
    lemma_same_type_more(f, f2, ctx, l, r);
}

proof fn lemma_tck_equivalence_more(f: nat, f2: nat, ctx: Bindings, l: TypedTerm, r: TypedTerm)
    requires
        f <= f2,
    ensures
        settled(spec_tck_equivalence(f, ctx, l, r)) ==> spec_tck_equivalence(f2, ctx, l, r)
            == spec_tck_equivalence(f, ctx, l, r),
{
    reveal(spec_tck_equivalence);
    lemma_is_term_more(f, f2, ctx, l);
    lemma_is_term_more(f, f2, ctx, r);
    lemma_same_type_more(f, f2, ctx, l, r);
}

proof fn lemma_tck_projection_more(f: nat, f2: nat, ctx: Bindings, r: TypedTerm, ls: Seq<Name>)
    requires
        f <= f2,
    ensures
        settled(spec_tck_projection(f, ctx, r, ls)) ==> spec_tck_projection(f2, ctx, r, ls)
            == spec_tck_projection(f, ctx, r, ls),
{
    reveal(spec_tck_projection);
    lemma_record_fields_more(f, f2, ctx, value_of(spec_type_of(r)->Ok_0));
}

proof fn lemma_merge_operands_more(f: nat, f2: nat, ctx: Bindings, l: TypedTerm, r: TypedTerm)
    requires
        f <= f2,
    ensures
        settled(spec_merge_operands(f, ctx, l, r)) ==> spec_merge_operands(f2, ctx, l, r)
            == spec_merge_operands(f, ctx, l, r),
{
    reveal(spec_merge_operands);
    let tl = spec_type_of(l)->Ok_0;
    let tr = spec_type_of(r)->Ok_0;
    lemma_same_type_more(f, f2, ctx, tl, tr);
    lemma_record_fields_more(f, f2, ctx, value_of(tl));
    lemma_record_fields_more(f, f2, ctx, value_of(tr));
}

proof fn lemma_combine_left_more(f: nat, f2: nat, ctx: Bindings, kl: Fields, kr: Fields, n: nat)
    requires
        f <= f2,
    ensures
        settled(spec_combine_left(f, ctx, kl, kr, n)) ==> spec_combine_left(f2, ctx, kl, kr, n)
            == spec_combine_left(f, ctx, kl, kr, n),
    decreases f, n,
{
    if !(n == 0 || n > kl.len()) {
        lemma_combine_left_more(f, f2, ctx, kl, kr, (n - 1) as nat);
        match index_of(kr, kl[n - 1].0, 0) {
            Some(j) => {
                if f > 0 {
                    lemma_record_fields_more(f, f2, ctx, kl[n - 1].1);
                    lemma_record_fields_more(f, f2, ctx, kr[j as int].1);
                    match (
                        spec_record_fields(f, ctx, kl[n - 1].1),
                        spec_record_fields(f, ctx, kr[j as int].1),
                    ) {
                        (Ok(Some(a)), Ok(Some(b))) => lemma_combine_more(
                            (f - 1) as nat,
                            (f2 - 1) as nat,
                            ctx,
                            a,
                            b,
                        ),
                        _ => {},
                    }
                }
            },
            None => {},
        }
    }
}

proof fn lemma_combine_more(f: nat, f2: nat, ctx: Bindings, kl: Fields, kr: Fields)
    requires
        f <= f2,
    ensures
        settled(spec_combine(f, ctx, kl, kr)) ==> spec_combine(f2, ctx, kl, kr) == spec_combine(
            f,
            ctx,
            kl,
            kr,
        ),
    decreases f, kl.len() + 1,
{
    lemma_combine_left_more(f, f2, ctx, kl, kr, kl.len());
}

proof fn lemma_tck_combine_types_more(f: nat, f2: nat, ctx: Bindings, l: TypedTerm, r: TypedTerm)
    requires
        f <= f2,
    ensures
        settled(spec_tck_combine_types(f, ctx, l, r)) ==> spec_tck_combine_types(f2, ctx, l, r)
            == spec_tck_combine_types(f, ctx, l, r),
{
    reveal(spec_tck_combine_types);
    lemma_universe_of_more(f, f2, ctx, l);
    lemma_universe_of_more(f, f2, ctx, r);
    lemma_record_fields_more(f, f2, ctx, value_of(l));
    lemma_record_fields_more(f, f2, ctx, value_of(r));
    match (spec_record_fields(f, ctx, value_of(l)), spec_record_fields(f, ctx, value_of(r))) {
        (Ok(Some(fl)), Ok(Some(fr))) => lemma_combine_more(f, f2, ctx, fl, fr),
        _ => {},
    }
}

proof fn lemma_handler_result_more(f: nat, f2: nat, ctx: Bindings, handler: Term, variant: Option<Term>)
    requires
        f <= f2,
    ensures
        settled(spec_handler_result(f, ctx, handler, variant)) ==> spec_handler_result(
            f2,
            ctx,
            handler,
            variant,
        ) == spec_handler_result(f, ctx, handler, variant),
{
    reveal(spec_handler_result);
    match variant {
        Some(vt) => {
            if spec_whnf(f, handler) is Some {
                lemma_whnf_more(f, f2, handler);
                match spec_whnf(f, handler) {
                    Some(Term::Pi(x, tx, tb)) => lemma_same_more(f, f2, ctx, vt, *tx),
                    _ => {},
                }
            }
        },
        None => {},
    }
}

proof fn lemma_handlers_more(f: nat, f2: nat, ctx: Bindings, hs: Fields, vs: Alternatives, n: nat)
    requires
        f <= f2,
    ensures
        settled(spec_handlers(f, ctx, hs, vs, n)) ==> spec_handlers(f2, ctx, hs, vs, n)
            == spec_handlers(f, ctx, hs, vs, n),
    decreases n,
{
    if !(n == 0 || n > hs.len()) {
        lemma_handlers_more(f, f2, ctx, hs, vs, (n - 1) as nat);
        match index_of(vs, hs[n - 1].0, 0) {
            Some(j) => {
                lemma_handler_result_more(f, f2, ctx, hs[n - 1].1, vs[j as int].1);
                match (
                    spec_handlers(f, ctx, hs, vs, (n - 1) as nat),
                    spec_handler_result(f, ctx, hs[n - 1].1, vs[j as int].1),
                ) {
                    (Ok(Some(t)), Ok(res)) => lemma_same_more(f, f2, ctx, t, res),
                    _ => {},
                }
            },
            None => {},
        }
    }
}

proof fn lemma_merge_parts_more(f: nat, f2: nat, ctx: Bindings, record: TypedTerm, union: TypedTerm)
    requires
        f <= f2,
    ensures
        settled(spec_merge_parts(f, ctx, record, union)) ==> spec_merge_parts(
            f2,
            ctx,
            record,
            union,
        ) == spec_merge_parts(f, ctx, record, union),
{
    reveal(spec_merge_parts);
    let tr = spec_type_of(record)->Ok_0;
    let tu = spec_type_of(union)->Ok_0;
    lemma_record_fields_more(f, f2, ctx, value_of(tr));
    lemma_union_alternatives_more(f, f2, ctx, value_of(tu));
    match (spec_record_fields(f, ctx, value_of(tr)), spec_union_alternatives(f, ctx, value_of(tu))) {
        (Ok(Some(hs)), Ok(Some(vs))) => lemma_handlers_more(f, f2, ctx, hs, vs, hs.len()),
        _ => {},
    }
}

proof fn lemma_tck_merge_more(
    f: nat,
    f2: nat,
    ctx: Bindings,
    record: TypedTerm,
    union: TypedTerm,
    annot: Option<TypedTerm>,
)
    requires
        f <= f2,
    ensures
        settled(spec_tck_merge(f, ctx, record, union, annot)) ==> spec_tck_merge(
            f2,
            ctx,
            record,
            union,
            annot,
        ) == spec_tck_merge(f, ctx, record, union, annot),
    decreases f, 1nat, 0nat,
{
    lemma_merge_parts_more(f, f2, ctx, record, union);
    match (spec_merge_parts(f, ctx, record, union), annot) {
        (Ok(Some(t1)), Some(t2)) => lemma_same_more(f, f2, ctx, t1, value_of(t2)),
        (Ok(Some(t)), None) => lemma_mktype_more(f, f2, ctx, t),
        _ => {},
    }
}

proof fn lemma_tck_app_more(f: nat, f2: nat, ctx: Bindings, g: TypedTerm, a: TypedTerm)
    requires
        f <= f2,
    ensures
        settled(spec_tck_app(f, ctx, g, a)) ==> spec_tck_app(f2, ctx, g, a) == spec_tck_app(
            f,
            ctx,
            g,
            a,
        ),
    decreases f, 1nat, 0nat,
{
    let tg = spec_type_of(g)->Ok_0;
    if spec_whnf(f, value_of(tg)) is Some {
        lemma_whnf_more(f, f2, value_of(tg));
        match spec_whnf(f, value_of(tg)) {
            Some(Term::Pi(x, tx, tb)) => {
                lemma_same_more(f, f2, ctx, value_of(spec_type_of(a)->Ok_0), *tx);
                match spec_subst_shift(x, 0, value_of(a), *tb) {
                    Some(res) => lemma_mktype_more(f, f2, ctx, res),
                    None => {},
                }
            },
            _ => {},
        }
    }
}

proof fn lemma_tck_field_more(f: nat, f2: nat, ctx: Bindings, r: TypedTerm, x: Name)
    requires
        f <= f2,
    ensures
        settled(spec_tck_field(f, ctx, r, x)) ==> spec_tck_field(f2, ctx, r, x) == spec_tck_field(
            f,
            ctx,
            r,
            x,
        ),
    decreases f, 1nat, 0nat,
{
    let tr = spec_type_of(r)->Ok_0;
    lemma_record_fields_more(f, f2, ctx, value_of(tr));
    lemma_union_alternatives_more(f, f2, ctx, value_of(r));
    match spec_record_fields(f, ctx, value_of(tr)) {
        Ok(Some(kts)) => match index_of(kts, x, 0) {
            Some(i) => lemma_mktype_more(f, f2, ctx, kts[i as int].1),
            None => {},
        },
        Ok(None) => match spec_union_alternatives(f, ctx, value_of(r)) {
            Ok(Some(kts)) => match index_of(kts, x, 0) {
                Some(i) => match kts[i as int].1 {
                    Some(t) => {
                        lemma_mktype_more(f, f2, ctx, t);
                        match (spec_mktype(f, ctx, t), spec_shift_typed(1, "_"@, 0, r)) {
                            (Ok(tt), Some(r2)) => lemma_tck_pi_type_more(
                                f,
                                f2,
                                ctx,
                                "_"@,
                                tt,
                                r2,
                            ),
                            _ => {},
                        }
                    },
                    None => {},
                },
                None => {},
            },
            _ => {},
        },
        _ => {},
    }
}

proof fn lemma_tck_prefer_more(f: nat, f2: nat, ctx: Bindings, l: TypedTerm, r: TypedTerm)
    requires
        f <= f2,
    ensures
        settled(spec_tck_prefer(f, ctx, l, r)) ==> spec_tck_prefer(f2, ctx, l, r)
            == spec_tck_prefer(f, ctx, l, r),
    decreases f, 1nat, 0nat,
{
    lemma_merge_operands_more(f, f2, ctx, l, r);
    match spec_merge_operands(f, ctx, l, r) {
        Ok((kl, kr)) => lemma_mktype_more(
            f,
            f2,
            ctx,
            Term::RecordType(spec_merge_fields(MergeMode::Prefer, kl, kr)),
        ),
        _ => {},
    }
}

proof fn lemma_tck_combine_more(f: nat, f2: nat, ctx: Bindings, l: TypedTerm, r: TypedTerm)
    requires
        f <= f2,
    ensures
        settled(spec_tck_combine(f, ctx, l, r)) ==> spec_tck_combine(f2, ctx, l, r)
            == spec_tck_combine(f, ctx, l, r),
    decreases f, 1nat, 0nat,
{
    lemma_merge_operands_more(f, f2, ctx, l, r);
    match spec_merge_operands(f, ctx, l, r) {
        Ok((kl, kr)) => {
            lemma_combine_more(f, f2, ctx, kl, kr);
            match spec_combine(f, ctx, kl, kr) {
                Ok(c) => lemma_mktype_more(f, f2, ctx, Term::RecordType(c)),
                _ => {},
            }
        },
        _ => {},
    }
}

proof fn lemma_tck_binop_more(f: nat, f2: nat, ctx: Bindings, o: BinOp, l: TypedTerm, r: TypedTerm)
    requires
        f <= f2,
    ensures
        settled(spec_tck_binop(f, ctx, o, l, r)) ==> spec_tck_binop(f2, ctx, o, l, r)
            == spec_tck_binop(f, ctx, o, l, r),
    decreases f, 2nat, 0nat,
{
    match o {
        BinOp::RightBiasedRecordMerge => lemma_tck_prefer_more(f, f2, ctx, l, r),
        BinOp::RecursiveRecordMerge => lemma_tck_combine_more(f, f2, ctx, l, r),
        BinOp::RecursiveRecordTypeMerge => lemma_tck_combine_types_more(f, f2, ctx, l, r),
        BinOp::ListAppend => lemma_tck_list_append_more(f, f2, ctx, l, r),
        BinOp::Equivalence => lemma_tck_equivalence_more(f, f2, ctx, l, r),
        _ => lemma_tck_simple_op_more(f, f2, ctx, o, l, r),
    }
}

proof fn lemma_mktype_more(f: nat, f2: nat, ctx: Bindings, t: Term)
    requires
        f <= f2,
    ensures
        settled(spec_mktype(f, ctx, t)) ==> spec_mktype(f2, ctx, t) == spec_mktype(f, ctx, t),
    decreases f, 0nat, 0nat,
{
    if f > 0 {
        lemma_type_with_more(
            (f - 1) as nat,
            (f2 - 1) as nat,
            spec_types_only(ctx, ctx.len()),
            t,
        );
    }
}

proof fn lemma_type_fields_more(f: nat, f2: nat, ctx: Bindings, fs: Fields, n: nat)
    requires
        f <= f2,
    ensures
        settled(spec_type_fields(f, ctx, fs, n)) ==> spec_type_fields(f2, ctx, fs, n)
            == spec_type_fields(f, ctx, fs, n),
    decreases f, 1nat, n,
{
    if !(n == 0 || n > fs.len()) {
        lemma_type_fields_more(f, f2, ctx, fs, (n - 1) as nat);
        lemma_type_with_more(f, f2, ctx, fs[n - 1].1);
    }
}

proof fn lemma_type_terms_more(f: nat, f2: nat, ctx: Bindings, ts: Seq<Term>, n: nat)
    requires
        f <= f2,
    ensures
        settled(spec_type_terms(f, ctx, ts, n)) ==> spec_type_terms(f2, ctx, ts, n)
            == spec_type_terms(f, ctx, ts, n),
    decreases f, 1nat, n,
{
    if !(n == 0 || n > ts.len()) {
        lemma_type_terms_more(f, f2, ctx, ts, (n - 1) as nat);
        lemma_type_with_more(f, f2, ctx, ts[n - 1]);
    }
}

proof fn lemma_type_alts_more(f: nat, f2: nat, ctx: Bindings, fs: Alternatives, n: nat)
    requires
        f <= f2,
    ensures
        settled(spec_type_alts(f, ctx, fs, n)) ==> spec_type_alts(f2, ctx, fs, n)
            == spec_type_alts(f, ctx, fs, n),
    decreases f, 1nat, n,
{
    if !(n == 0 || n > fs.len()) {
        lemma_type_alts_more(f, f2, ctx, fs, (n - 1) as nat);
        match fs[n - 1].1 {
            Some(t0) => lemma_type_with_more(f, f2, ctx, t0),
            None => {},
        }
    }
}

proof fn lemma_type_lam_more(f: nat, f2: nat, ctx: Bindings, x: Name, t: Term, b: Term)
    requires
        f <= f2,
    ensures
        settled(spec_type_lam(f, ctx, x, t, b)) ==> spec_type_lam(f2, ctx, x, t, b)
            == spec_type_lam(f, ctx, x, t, b),
    decreases f, 3nat, 0nat,
{
    lemma_type_with_more(f, f2, ctx, t);
    match spec_type_with(f, ctx, t) {
        Ok(tx) => match spec_insert_type(ctx, x, tx) {
            Some(ctx2) => {
                lemma_type_with_more(f, f2, ctx2, b);
                match spec_type_with(f, ctx2, b) {
                    Ok(tb) => lemma_tck_pi_type_more(f, f2, ctx, x, tx, spec_type_of(tb)->Ok_0),
                    _ => {},
                }
            },
            None => {},
        },
        _ => {},
    }
}

proof fn lemma_type_pi_more(f: nat, f2: nat, ctx: Bindings, x: Name, t: Term, b: Term)
    requires
        f <= f2,
    ensures
        settled(spec_type_pi(f, ctx, x, t, b)) ==> spec_type_pi(f2, ctx, x, t, b) == spec_type_pi(
            f,
            ctx,
            x,
            t,
            b,
        ),
    decreases f, 3nat, 0nat,
{
    lemma_type_with_more(f, f2, ctx, t);
    match spec_type_with(f, ctx, t) {
        Ok(tx) => match spec_insert_type(ctx, x, tx) {
            Some(ctx2) => {
                lemma_type_with_more(f, f2, ctx2, b);
                match spec_type_with(f, ctx2, b) {
                    Ok(tb) => lemma_tck_pi_type_more(f, f2, ctx, x, tx, tb),
                    _ => {},
                }
            },
            None => {},
        },
        _ => {},
    }
}

proof fn lemma_type_let_more(
    f: nat,
    f2: nat,
    ctx: Bindings,
    x: Name,
    ot: Option<Box<Term>>,
    v: Term,
    b: Term,
)
    requires
        f <= f2,
    ensures
        settled(spec_type_let(f, ctx, x, ot, v, b)) ==> spec_type_let(f2, ctx, x, ot, v, b)
            == spec_type_let(f, ctx, x, ot, v, b),
    decreases f, 3nat, 0nat,
{
    let first = match ot {
        Some(t) => Term::Annot(Box::new(v), t),
        None => v,
    };
    lemma_type_with_more(f, f2, ctx, first);
    match spec_type_with(f, ctx, first) {
        Ok(tv) => lemma_type_with_more(f, f2, spec_insert_value(ctx, x, tv), b),
        _ => {},
    }
}

proof fn lemma_type_one_more(f: nat, f2: nat, ctx: Bindings, e: Term, a: Term)
    requires
        f <= f2,
    ensures
        settled(spec_type_one(f, ctx, e, a)) ==> spec_type_one(f2, ctx, e, a) == spec_type_one(
            f,
            ctx,
            e,
            a,
        ),
    decreases f, 3nat, 0nat,
{
    lemma_type_with_more(f, f2, ctx, a);
    match spec_type_with(f, ctx, a) {
        Ok(ta) => match e {
            Term::Assert(_) => lemma_tck_assert_more(f, f2, ctx, ta),
            Term::EmptyListLit(_) => lemma_tck_empty_list_more(f, f2, ctx, ta),
            Term::SomeLit(_) => lemma_tck_some_more(f, f2, ctx, ta),
            Term::Field(_, x) => lemma_tck_field_more(f, f2, ctx, ta, x),
            Term::Projection(_, ls) => lemma_tck_projection_more(f, f2, ctx, ta, ls),
            _ => {},
        },
        _ => {},
    }
}

proof fn lemma_type_two_more(f: nat, f2: nat, ctx: Bindings, e: Term, a: Term, b: Term)
    requires
        f <= f2,
    ensures
        settled(spec_type_two(f, ctx, e, a, b)) ==> spec_type_two(f2, ctx, e, a, b)
            == spec_type_two(f, ctx, e, a, b),
    decreases f, 3nat, 0nat,
{
    lemma_type_with_more(f, f2, ctx, a);
    lemma_type_with_more(f, f2, ctx, b);
    match (spec_type_with(f, ctx, a), spec_type_with(f, ctx, b)) {
        (Ok(ta), Ok(tb)) => match e {
            Term::App(_, _) => lemma_tck_app_more(f, f2, ctx, ta, tb),
            Term::Annot(_, _) => lemma_tck_annot_more(f, f2, ctx, ta, tb),
            Term::BinOp(o, _, _) => lemma_tck_binop_more(f, f2, ctx, o, ta, tb),
            _ => {},
        },
        _ => {},
    }
}

proof fn lemma_type_if_more(f: nat, f2: nat, ctx: Bindings, c: Term, a: Term, b: Term)
    requires
        f <= f2,
    ensures
        settled(spec_type_if(f, ctx, c, a, b)) ==> spec_type_if(f2, ctx, c, a, b) == spec_type_if(
            f,
            ctx,
            c,
            a,
            b,
        ),
    decreases f, 3nat, 0nat,
{
    lemma_type_with_more(f, f2, ctx, c);
    lemma_type_with_more(f, f2, ctx, a);
    lemma_type_with_more(f, f2, ctx, b);
    match (spec_type_with(f, ctx, c), spec_type_with(f, ctx, a), spec_type_with(f, ctx, b)) {
        (Ok(tc), Ok(ta), Ok(tb)) => lemma_tck_if_more(f, f2, ctx, tc, ta, tb),
        _ => {},
    }
}

proof fn lemma_type_merge_more(f: nat, f2: nat, ctx: Bindings, r: Term, u: Term, ot: Option<Box<Term>>)
    requires
        f <= f2,
    ensures
        settled(spec_type_merge(f, ctx, r, u, ot)) ==> spec_type_merge(f2, ctx, r, u, ot)
            == spec_type_merge(f, ctx, r, u, ot),
    decreases f, 3nat, 0nat,
{
    lemma_type_with_more(f, f2, ctx, r);
    lemma_type_with_more(f, f2, ctx, u);
    match (spec_type_with(f, ctx, r), spec_type_with(f, ctx, u)) {
        (Ok(tr), Ok(tu)) => match ot {
            None => lemma_tck_merge_more(f, f2, ctx, tr, tu, None),
            Some(t) => {
                lemma_type_with_more(f, f2, ctx, *t);
                match spec_type_with(f, ctx, *t) {
                    Ok(tt) => lemma_tck_merge_more(f, f2, ctx, tr, tu, Some(tt)),
                    _ => {},
                }
            },
        },
        _ => {},
    }
}

proof fn lemma_type_many_more(f: nat, f2: nat, ctx: Bindings, e: Term)
    requires
        f <= f2,
    ensures
        settled(spec_type_many(f, ctx, e)) ==> spec_type_many(f2, ctx, e) == spec_type_many(
            f,
            ctx,
            e,
        ),
    decreases f, 3nat, 0nat,
{
    match e {
        Term::TextLit(chunks, _) => {
            lemma_type_fields_more(f, f2, ctx, chunks, chunks.len());
            match spec_type_fields(f, ctx, chunks, chunks.len()) {
                Ok(tc) => lemma_tck_text_more(f, f2, ctx, tc),
                _ => {},
            }
        },
        Term::NEListLit(x, xs) => {
            lemma_type_with_more(f, f2, ctx, *x);
            lemma_type_terms_more(f, f2, ctx, xs, xs.len());
            match (spec_type_with(f, ctx, *x), spec_type_terms(f, ctx, xs, xs.len())) {
                (Ok(tx), Ok(txs)) => lemma_tck_list_more(f, f2, ctx, tx, txs),
                _ => {},
            }
        },
        Term::RecordType(fs) => {
            lemma_type_fields_more(f, f2, ctx, fs, fs.len());
            match spec_type_fields(f, ctx, fs, fs.len()) {
                Ok(kts) => lemma_tck_record_type_more(f, f2, ctx, kts),
                _ => {},
            }
        },
        Term::RecordLit(fs) => {
            lemma_type_fields_more(f, f2, ctx, fs, fs.len());
            match spec_type_fields(f, ctx, fs, fs.len()) {
                Ok(kvs) => lemma_tck_record_lit_more(f, f2, ctx, kvs),
                _ => {},
            }
        },
        Term::UnionType(fs) => {
            lemma_type_alts_more(f, f2, ctx, fs, fs.len());
            match spec_type_alts(f, ctx, fs, fs.len()) {
                Ok(kts) => lemma_tck_union_type_more(f, f2, ctx, kts),
                _ => {},
            }
        },
        _ => {},
    }
}

/// What the checker finds for an expression within one budget, it finds
/// within every greater one: a type, or an error other than
/// `BudgetExhausted`, does not depend on the budget.
pub proof fn lemma_type_with_more(f: nat, f2: nat, ctx: Bindings, e: Term)
    requires
        f <= f2,
    ensures
        settled(spec_type_with(f, ctx, e)) ==> spec_type_with(f2, ctx, e) == spec_type_with(
            f,
            ctx,
            e,
        ),
    decreases f, 0nat, 0nat,
{
    if f > 0 {
        let g = (f - 1) as nat;
        let g2 = (f2 - 1) as nat;
        match e {
            Term::Lam(x, t, b) => lemma_type_lam_more(g, g2, ctx, x, *t, *b),
            Term::Pi(x, t, b) => lemma_type_pi_more(g, g2, ctx, x, *t, *b),
            Term::Let(x, ot, v, b) => lemma_type_let_more(g, g2, ctx, x, ot, *v, *b),
            Term::Builtin(b) => lemma_type_with_more(g, g2, ctx, spec_type_of_builtin(b)),
            Term::Assert(a) | Term::EmptyListLit(a) | Term::SomeLit(a) | Term::Field(a, _)
            | Term::Projection(a, _) => lemma_type_one_more(g, g2, ctx, e, *a),
            Term::App(a, b) | Term::Annot(a, b) | Term::BinOp(_, a, b) => lemma_type_two_more(
                g,
                g2,
                ctx,
                e,
                *a,
                *b,
            ),
            Term::BoolIf(c, a, b) => lemma_type_if_more(g, g2, ctx, *c, *a, *b),
            Term::Merge(r, u, ot) => lemma_type_merge_more(g, g2, ctx, *r, *u, ot),
            Term::TextLit(_, _) | Term::NEListLit(_, _) | Term::RecordType(_)
            | Term::RecordLit(_) | Term::UnionType(_) => lemma_type_many_more(g, g2, ctx, e),
            _ => {},
        }
    }
}

/// The answer on a closed expression does not depend on the budget: a
/// result of `spec_typecheck` other than `BudgetExhausted` is the result
/// within every greater budget.
pub proof fn lemma_typecheck_more(f: nat, f2: nat, e: Term)
    requires
        f <= f2,
    ensures
        settled(spec_typecheck(f, e)) ==> spec_typecheck(f2, e) == spec_typecheck(f, e),
{
    lemma_type_with_more(f, f2, Seq::empty(), e);
}

} // verus!
