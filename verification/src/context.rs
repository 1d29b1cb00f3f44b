//! The typing context: the variables in scope, newest last.

use vstd::prelude::*;
use crate::syntax::{clone_var, Expr, Name, Term, V};
use crate::typed::{clone_typed, spec_shift_typed, TypedTerm, TypedValue};
use crate::var::{same_name, shift_index};

verus! {

/// The model of an `EnvItem`.
pub enum Binding {
    /// A variable bound by a function or a function type: the index under
    /// which values refer to it, and its type.
    Type(u64, TypedTerm),
    /// A variable bound by `let`: what it stands for.
    Value(TypedTerm),
}

/// The model of a context: each binding with the label it binds, the
/// newest last.
pub type Bindings = Seq<(Name, Binding)>;

/// What the context holds for a variable.
///
/// Of the variable of a type binding only the index counts: its name is
/// the label that the binding stands under.
#[derive(Debug, PartialEq, Eq)]
pub enum EnvItem {
    /// The variable that values use for this binder, and its type.
    Type(V, TypedValue),
    /// The value that a `let` gave the variable.
    Value(TypedValue),
}

/// The variables in scope, the newest last.
#[derive(Debug, PartialEq, Eq)]
pub struct TypecheckContext(pub Vec<(String, EnvItem)>);

/// The model of a binding.
pub open spec fn binding_of(item: EnvItem) -> Binding {
    match item {
        EnvItem::Type(v, t) => Binding::Type(v.1, t@),
        EnvItem::Value(t) => Binding::Value(t@),
    }
}

/// The model of a context.
pub open spec fn context_of(ctx: TypecheckContext) -> Bindings {
    Seq::new(ctx.0.len() as nat, |i: int| (ctx.0[i].0@, binding_of(ctx.0[i].1)))
}

/// The binding shifted by `d` over `x@0`: the value or the type, and for
/// a type binding of `x` also the index of its variable.
pub open spec fn spec_shift_binding(d: int, x: Name, label: Name, b: Binding) -> Option<Binding> {
    match b {
        Binding::Type(n, t) => match (
            if label == x {
                shift_index(d, 0, n)
            } else {
                Some(n)
            },
            spec_shift_typed(d, x, 0, t),
        ) {
            (Some(n2), Some(t2)) => Some(Binding::Type(n2, t2)),
            _ => None,
        },
        Binding::Value(t) => match spec_shift_typed(d, x, 0, t) {
            Some(t2) => Some(Binding::Value(t2)),
            None => None,
        },
    }
}

/// The first `k` bindings of `ctx`, each shifted by one over `x@0`.
pub open spec fn spec_shift_bindings(x: Name, ctx: Bindings, k: nat) -> Option<Bindings>
    decreases k,
{
    if k == 0 || k > ctx.len() {
        Some(Seq::empty())
    } else {
        match spec_shift_bindings(x, ctx, (k - 1) as nat) {
            Some(done) => match spec_shift_binding(1, x, ctx[k - 1].0, ctx[k - 1].1) {
                Some(b) => Some(done.push((ctx[k - 1].0, b))),
                None => None,
            },
            None => None,
        }
    }
}

/// The context under a binder of `x` with type `t`: every binding that was
/// there is shifted by one over `x@0`, and so is `t`, which is bound to
/// `x@0` on top of them. `None` where a shift is.
pub open spec fn spec_insert_type(ctx: Bindings, x: Name, t: TypedTerm) -> Option<Bindings> {
    match (spec_shift_bindings(x, ctx, ctx.len()), spec_shift_typed(1, x, 0, t)) {
        (Some(shifted), Some(t2)) => Some(shifted.push((x, Binding::Type(0, t2)))),
        _ => None,
    }
}

/// The context in which `x` stands for the value `v`. Nothing is shifted:
/// values do not refer to a variable that `let` binds.
pub open spec fn spec_insert_value(ctx: Bindings, x: Name, v: TypedTerm) -> Bindings {
    ctx.push((x, Binding::Value(v)))
}

/// What the variable `x@n` is in the first `k` bindings of `ctx`: the
/// binding of `x` that has `n` newer bindings of `x` above it. A type
/// binding gives its variable with the type; a value binding gives the
/// value. `None` where there is no such binding.
pub open spec fn spec_lookup(ctx: Bindings, x: Name, n: nat, k: nat) -> Option<TypedTerm>
    decreases k,
{
    if k == 0 || k > ctx.len() {
        None
    } else if ctx[k - 1].0 == x {
        if n == 0 {
            match ctx[k - 1].1 {
                Binding::Type(m, t) => Some(TypedTerm::Typed(Term::Var(x, m), Box::new(t))),
                Binding::Value(v) => Some(v),
            }
        } else {
            spec_lookup(ctx, x, (n - 1) as nat, (k - 1) as nat)
        }
    } else {
        spec_lookup(ctx, x, n, (k - 1) as nat)
    }
}

/// Those of the first `k` bindings of `ctx` that bind a type.
pub open spec fn spec_types_only(ctx: Bindings, k: nat) -> Bindings
    decreases k,
{
    if k == 0 || k > ctx.len() {
        Seq::empty()
    } else {
        let done = spec_types_only(ctx, (k - 1) as nat);
        match ctx[k - 1].1 {
            Binding::Type(_, _) => done.push(ctx[k - 1]),
            Binding::Value(_) => done,
        }
    }
}

fn clone_item(item: &EnvItem) -> (r: EnvItem)
    ensures
        binding_of(r) == binding_of(*item),
{
    match item {
        EnvItem::Type(v, t) => EnvItem::Type(clone_var(v), clone_typed(t)),
        EnvItem::Value(t) => EnvItem::Value(clone_typed(t)),
    }
}

/// A copy of a context.
pub fn clone_context(ctx: &TypecheckContext) -> (r: TypecheckContext)
    ensures
        context_of(r) == context_of(*ctx),
{
    let mut out: Vec<(String, EnvItem)> = Vec::new();
    let mut i: usize = 0;
    while i < ctx.0.len()
        invariant
            i <= ctx.0.len(),
            out.len() == i,
            forall|j: int|
                0 <= j < i ==> out[j].0@ == ctx.0[j].0@ && binding_of(out[j].1) == binding_of(
                    ctx.0[j].1,
                ),
        decreases ctx.0.len() - i,
    {
        out.push((ctx.0[i].0.clone(), clone_item(&ctx.0[i].1)));
        i += 1;
    }
    let r = TypecheckContext(out);
    assert(context_of(r) =~= context_of(*ctx));
    r
}

impl EnvItem {
    /// The item, standing under `label`, shifted by one over `x@0`.
    pub fn shift(&self, x: &String, label: &String) -> (r: Option<EnvItem>)
        ensures
            match r {
                Some(b) => spec_shift_binding(1, x@, label@, binding_of(*self)) == Some(
                    binding_of(b),
                ),
                None => spec_shift_binding(1, x@, label@, binding_of(*self)) is None,
            },
    {
        match self {
            EnvItem::Type(v, t) => {
                let n2 = if same_name(label, x) {
                    if v.1 < u64::MAX {
                        Some(v.1 + 1)
                    } else {
                        None
                    }
                } else {
                    Some(v.1)
                };
                let t2 = t.shift(1, x);
                match (n2, t2) {
                    (Some(n2), Some(t2)) => Some(EnvItem::Type(V(v.0.clone(), n2), t2)),
                    _ => None,
                }
            },
            EnvItem::Value(t) => match t.shift(1, x) {
                Some(t2) => Some(EnvItem::Value(t2)),
                None => None,
            },
        }
    }
}

impl TypecheckContext {
    /// The empty context.
    pub fn new() -> (r: TypecheckContext)
        ensures
            context_of(r) == Seq::<(Name, Binding)>::empty(),
    {
        let r = TypecheckContext(Vec::new());
        assert(context_of(r) =~= Seq::<(Name, Binding)>::empty());
        r
    }

    /// The context under a binder of `x` with type `t`.
    pub fn insert_type(&self, x: &String, t: &TypedValue) -> (r: Option<TypecheckContext>)
        ensures
            match r {
                Some(c) => spec_insert_type(context_of(*self), x@, t@) == Some(context_of(c)),
                None => spec_insert_type(context_of(*self), x@, t@) is None,
            },
    {
        let mut out: Vec<(String, EnvItem)> = Vec::new();
        let mut ok = true;
        let mut i: usize = 0;
        while i < self.0.len()
            invariant
                i <= self.0.len(),
                ok ==> spec_shift_bindings(x@, context_of(*self), i as nat) == Some(
                    context_of(TypecheckContext(out)),
                ),
                !ok ==> spec_shift_bindings(x@, context_of(*self), i as nat) is None,
            decreases self.0.len() - i,
        {
            if ok {
                match self.0[i].1.shift(x, &self.0[i].0) {
                    Some(b) => {
                        let ghost prev = context_of(TypecheckContext(out));
                        out.push((self.0[i].0.clone(), b));
                        assert(context_of(TypecheckContext(out)) =~= prev.push(
                            (self.0[i as int].0@, binding_of(b)),
                        ));
                    },
                    None => {
                        ok = false;
                    },
                }
            }
            i += 1;
        }
        if !ok {
            return None;
        }
        match t.shift(1, x) {
            Some(t2) => {
                let ghost prev = context_of(TypecheckContext(out));
                out.push((x.clone(), EnvItem::Type(V(x.clone(), 0), t2)));
                let r = TypecheckContext(out);
                assert(context_of(r) =~= prev.push((x@, Binding::Type(0, t2@))));
                Some(r)
            },
            None => None,
        }
    }

    /// The context in which `x` stands for the value `v`.
    pub fn insert_value(&self, x: &String, v: &TypedValue) -> (r: TypecheckContext)
        ensures
            context_of(r) == spec_insert_value(context_of(*self), x@, v@),
    {
        let mut c = clone_context(self);
        let ghost prev = context_of(c);
        c.0.push((x.clone(), EnvItem::Value(clone_typed(v))));
        assert(context_of(c) =~= prev.push((x@, Binding::Value(v@))));
        c
    }

    /// What the variable `var` is in this context.
    pub fn lookup(&self, var: &V) -> (r: Option<TypedValue>)
        ensures
            match r {
                Some(t) => spec_lookup(
                    context_of(*self),
                    var.0@,
                    var.1 as nat,
                    self.0.len() as nat,
                ) == Some(t@),
                None => spec_lookup(context_of(*self), var.0@, var.1 as nat, self.0.len() as nat)
                    is None,
            },
    {
        let mut n: u64 = var.1;
        let mut k: usize = self.0.len();
        while k > 0
            invariant
                k <= self.0.len(),
                spec_lookup(context_of(*self), var.0@, var.1 as nat, self.0.len() as nat)
                    == spec_lookup(context_of(*self), var.0@, n as nat, k as nat),
            decreases k,
        {
            if same_name(&self.0[k - 1].0, &var.0) {
                if n == 0 {
                    return Some(
                        match &self.0[k - 1].1 {
                            EnvItem::Type(v, t) => TypedValue::Typed(
                                Expr::Var(V(var.0.clone(), v.1)),
                                Box::new(clone_typed(t)),
                            ),
                            EnvItem::Value(v) => clone_typed(v),
                        },
                    );
                }
                n = n - 1;
            }
            k = k - 1;
        }
        None
    }

    /// The context without the variables that `let` binds: the one in
    /// which a value, where no such variable is left, is checked again.
    pub fn types_only(&self) -> (r: TypecheckContext)
        ensures
            context_of(r) == spec_types_only(context_of(*self), self.0.len() as nat),
    {
        let mut out: Vec<(String, EnvItem)> = Vec::new();
        let mut i: usize = 0;
        while i < self.0.len()
            invariant
                i <= self.0.len(),
                context_of(TypecheckContext(out)) == spec_types_only(context_of(*self), i as nat),
            decreases self.0.len() - i,
        {
            match &self.0[i].1 {
                EnvItem::Type(_, _) => {
                    let ghost prev = context_of(TypecheckContext(out));
                    let item = clone_item(&self.0[i].1);
                    out.push((self.0[i].0.clone(), item));
                    assert(context_of(TypecheckContext(out)) =~= prev.push(
                        context_of(*self)[i as int],
                    ));
                },
                EnvItem::Value(_) => {},
            }
            i += 1;
        }
        TypecheckContext(out)
    }
}

} // verus!
