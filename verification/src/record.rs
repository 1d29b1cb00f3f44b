//! Lists of labelled entries read as mappings: a label stands for the
//! first entry that carries it.

use vstd::prelude::*;
use crate::syntax::{alternatives_of, clone_expr, fields_of, names_of, Expr, Fields, Name, Term};
use crate::var::same_name;

verus! {

/// The position of the first entry labelled `l` at or after `from`.
pub open spec fn index_of<T>(fs: Seq<(Name, T)>, l: Name, from: nat) -> Option<nat>
    decreases fs.len() - from,
{
    if from >= fs.len() {
        None
    } else if fs[from as int].0 == l {
        Some(from)
    } else {
        index_of(fs, l, from + 1)
    }
}

/// The position of the first field labelled `l`.
pub fn find_field(fs: &Vec<(String, Expr)>, l: &String) -> (r: Option<usize>)
    ensures
        match r {
            Some(i) => index_of(fields_of(*fs), l@, 0) == Some(i as nat) && i < fs.len(),
            None => index_of(fields_of(*fs), l@, 0) is None,
        },
{
    let mut i: usize = 0;
    while i < fs.len()
        invariant
            i <= fs.len(),
            index_of(fields_of(*fs), l@, 0) == index_of(fields_of(*fs), l@, i as nat),
        decreases fs.len() - i,
    {
        if same_name(&fs[i].0, l) {
            return Some(i);
        }
        i += 1;
    }
    None
}

/// The position of the first alternative labelled `l`.
pub fn find_alternative(fs: &Vec<(String, Option<Expr>)>, l: &String) -> (r: Option<usize>)
    ensures
        match r {
            Some(i) => index_of(alternatives_of(*fs), l@, 0) == Some(i as nat) && i < fs.len(),
            None => index_of(alternatives_of(*fs), l@, 0) is None,
        },
{
    let mut i: usize = 0;
    while i < fs.len()
        invariant
            i <= fs.len(),
            index_of(alternatives_of(*fs), l@, 0) == index_of(alternatives_of(*fs), l@, i as nat),
        decreases fs.len() - i,
    {
        if same_name(&fs[i].0, l) {
            return Some(i);
        }
        i += 1;
    }
    None
}

/// The fields that the first `k` of the labels `ls` select from `fs`, in
/// the order of the labels; `None` where one of them is no field of `fs`.
pub open spec fn spec_project(fs: Fields, ls: Seq<Name>, k: nat) -> Option<Fields>
    decreases k,
{
    if k == 0 || k > ls.len() {
        Some(Seq::empty())
    } else {
        match spec_project(fs, ls, (k - 1) as nat) {
            Some(done) => match index_of(fs, ls[k - 1], 0) {
                Some(i) => Some(done.push((ls[k - 1], fs[i as int].1))),
                None => None,
            },
            None => None,
        }
    }
}

/// The fields of `fs` that the labels `ls` name.
pub fn project(fs: &Vec<(String, Expr)>, ls: &Vec<String>) -> (r: Option<Vec<(String, Expr)>>)
    ensures
        match r {
            Some(out) => spec_project(fields_of(*fs), names_of(*ls), ls.len() as nat) == Some(
                fields_of(out),
            ),
            None => spec_project(fields_of(*fs), names_of(*ls), ls.len() as nat) is None,
        },
{
    let mut out: Vec<(String, Expr)> = Vec::new();
    let mut ok = true;
    let mut i: usize = 0;
    while i < ls.len()
        invariant
            i <= ls.len(),
            ok ==> spec_project(fields_of(*fs), names_of(*ls), i as nat) == Some(fields_of(out)),
            !ok ==> spec_project(fields_of(*fs), names_of(*ls), i as nat) is None,
        decreases ls.len() - i,
    {
        if ok {
            match find_field(fs, &ls[i]) {
                Some(j) => {
                    let ghost prev = fields_of(out);
                    out.push((ls[i].clone(), clone_expr(&fs[j].1)));
                    assert(fields_of(out) =~= prev.push((ls[i as int]@, fs[j as int].1@)));
                },
                None => {
                    ok = false;
                },
            }
        }
        i += 1;
    }
    if ok {
        Some(out)
    } else {
        None
    }
}

/// How two records are merged where both have a field.
#[derive(Clone, Copy, Debug, PartialEq, Eq, Structural)]
pub enum MergeMode {
    /// The right field stands.
    Prefer,
    /// The two fields are joined by `∧`.
    Combine,
    /// The two fields are joined by `⩓`.
    CombineTypes,
}

/// The field of a merged record for a label that both records have.
pub open spec fn merged_entry(mode: MergeMode, l: Term, r: Term) -> Term {
    match mode {
        MergeMode::Prefer => r,
        MergeMode::Combine => Term::BinOp(
            crate::syntax::BinOp::RecursiveRecordMerge,
            Box::new(l),
            Box::new(r),
        ),
        MergeMode::CombineTypes => Term::BinOp(
            crate::syntax::BinOp::RecursiveRecordTypeMerge,
            Box::new(l),
            Box::new(r),
        ),
    }
}

/// The first `k` fields of `a`, each merged with the field of `b` that
/// has its label, if there is one.
pub open spec fn spec_merge_left(mode: MergeMode, a: Fields, b: Fields, k: nat) -> Fields
    decreases k,
{
    if k == 0 || k > a.len() {
        Seq::empty()
    } else {
        let done = spec_merge_left(mode, a, b, (k - 1) as nat);
        match index_of(b, a[k - 1].0, 0) {
            Some(j) => done.push((a[k - 1].0, merged_entry(mode, a[k - 1].1, b[j as int].1))),
            None => done.push(a[k - 1]),
        }
    }
}

/// Those of the first `k` fields of `b` whose label `a` does not have.
pub open spec fn spec_merge_right(a: Fields, b: Fields, k: nat) -> Fields
    decreases k,
{
    if k == 0 || k > b.len() {
        Seq::empty()
    } else {
        let done = spec_merge_right(a, b, (k - 1) as nat);
        match index_of(a, b[k - 1].0, 0) {
            Some(j) => done,
            None => done.push(b[k - 1]),
        }
    }
}

/// The merge of two records: the fields of `a` in their order, each
/// merged with its partner in `b` where it has one, then the fields that
/// only `b` has.
pub open spec fn spec_merge_fields(mode: MergeMode, a: Fields, b: Fields) -> Fields {
    spec_merge_left(mode, a, b, a.len()) + spec_merge_right(a, b, b.len())
}

fn merge_entry(mode: MergeMode, l: &Expr, r: &Expr) -> (e: Expr)
    ensures
        e@ == merged_entry(mode, l@, r@),
{
    match mode {
        MergeMode::Prefer => clone_expr(r),
        MergeMode::Combine => Expr::BinOp(
            crate::syntax::BinOp::RecursiveRecordMerge,
            Box::new(clone_expr(l)),
            Box::new(clone_expr(r)),
        ),
        MergeMode::CombineTypes => Expr::BinOp(
            crate::syntax::BinOp::RecursiveRecordTypeMerge,
            Box::new(clone_expr(l)),
            Box::new(clone_expr(r)),
        ),
    }
}

/// Merges two records.
pub fn merge_fields(mode: MergeMode, a: &Vec<(String, Expr)>, b: &Vec<(String, Expr)>) -> (r: Vec<
    (String, Expr),
>)
    ensures
        fields_of(r) == spec_merge_fields(mode, fields_of(*a), fields_of(*b)),
{
    let mut out: Vec<(String, Expr)> = Vec::new();
    let mut i: usize = 0;
    while i < a.len()
        invariant
            i <= a.len(),
            fields_of(out) == spec_merge_left(mode, fields_of(*a), fields_of(*b), i as nat),
        decreases a.len() - i,
    {
        let ghost prev = fields_of(out);
        match find_field(b, &a[i].0) {
            Some(j) => {
                let e = merge_entry(mode, &a[i].1, &b[j].1);
                out.push((a[i].0.clone(), e));
                assert(fields_of(out) =~= prev.push((a[i as int].0@, e@)));
            },
            None => {
                out.push((a[i].0.clone(), clone_expr(&a[i].1)));
                assert(fields_of(out) =~= prev.push(fields_of(*a)[i as int]));
            },
        }
        i += 1;
    }
    let ghost left = fields_of(out);
    let mut k: usize = 0;
    while k < b.len()
        invariant
            k <= b.len(),
            fields_of(out) == left + spec_merge_right(fields_of(*a), fields_of(*b), k as nat),
        decreases b.len() - k,
    {
        let ghost prev = fields_of(out);
        match find_field(a, &b[k].0) {
            Some(j) => {},
            None => {
                out.push((b[k].0.clone(), clone_expr(&b[k].1)));
                assert(fields_of(out) =~= prev.push(fields_of(*b)[k as int]));
                assert(prev.push(fields_of(*b)[k as int]) =~= left + spec_merge_right(
                    fields_of(*a),
                    fields_of(*b),
                    (k + 1) as nat,
                ));
            },
        }
        k += 1;
    }
    out
}

/// The fields of `b` whose label `a` does not have.
pub fn only_right(a: &Vec<(String, Expr)>, b: &Vec<(String, Expr)>) -> (r: Vec<(String, Expr)>)
    ensures
        fields_of(r) == spec_merge_right(fields_of(*a), fields_of(*b), b.len() as nat),
{
    let mut out: Vec<(String, Expr)> = Vec::new();
    assert(fields_of(out) =~= Seq::empty());
    let mut k: usize = 0;
    while k < b.len()
        invariant
            k <= b.len(),
            fields_of(out) == spec_merge_right(fields_of(*a), fields_of(*b), k as nat),
        decreases b.len() - k,
    {
        let ghost prev = fields_of(out);
        match find_field(a, &b[k].0) {
            Some(j) => {},
            None => {
                out.push((b[k].0.clone(), clone_expr(&b[k].1)));
                assert(fields_of(out) =~= prev.push(fields_of(*b)[k as int]));
            },
        }
        k += 1;
    }
    out
}

/// The fields of `a` followed by those of `b`.
pub fn append_fields(a: Vec<(String, Expr)>, b: &Vec<(String, Expr)>) -> (r: Vec<(String, Expr)>)
    ensures
        fields_of(r) == fields_of(a) + fields_of(*b),
{
    let mut out = a;
    let ghost first = fields_of(out);
    let mut k: usize = 0;
    while k < b.len()
        invariant
            k <= b.len(),
            fields_of(out) =~= first + fields_of(*b).subrange(0, k as int),
        decreases b.len() - k,
    {
        let ghost prev = fields_of(out);
        out.push((b[k].0.clone(), clone_expr(&b[k].1)));
        assert(fields_of(out) =~= prev.push(fields_of(*b)[k as int]));
        k += 1;
    }
    assert(fields_of(*b).subrange(0, b.len() as int) =~= fields_of(*b));
    out
}

/// The fields `fs` with the field `l = e` added. Where `fs` has a field
/// `l` already, the two are joined: `l = old ∧ e` stands in its place.
pub open spec fn spec_insert_entry(fs: Fields, l: Name, e: Term) -> Fields {
    match index_of(fs, l, 0) {
        None => fs.push((l, e)),
        Some(i) => fs.update(i as int, (l, merged_entry(MergeMode::Combine, fs[i as int].1, e))),
    }
}

/// Adds the field `l = e` to the record literal `map`; a label that is
/// there already makes a recursive merge of the old field and the new.
pub fn insert_recordlit_entry(map: &mut Vec<(String, Expr)>, l: String, e: Expr)
    ensures
        fields_of(*final(map)) == spec_insert_entry(fields_of(*old(map)), l@, e@),
{
    let ghost before = fields_of(*map);
    match find_field(map, &l) {
        None => {
            map.push((l, e));
            assert(fields_of(*map) =~= before.push((l@, e@)));
        },
        Some(i) => {
            let entry = merge_entry(MergeMode::Combine, &map[i].1, &e);
            let ghost joined = entry@;
            let _ = map.remove(i);
            map.insert(i, (l, entry));
            assert(fields_of(*map) =~= before.update(i as int, (l@, joined)));
        },
    }
}

} // verus!
