//! A type checker for the Dhall configuration language.
//!
//! The checker works on resolved expressions: trees in which every import
//! has already been replaced by what it refers to. It infers the type of an
//! expression, reducing types to weak head normal form where a rule has to
//! look at them, and compares types up to the renaming of bound variables.
//!
//! Every function of this crate is stated against a mathematical model of
//! the syntax ([`syntax::Term`]): the executable trees ([`syntax::Expr`])
//! are related to it by their view.
//!
//! - [`syntax`]: expressions and their model; [`traverse`]: their direct
//!   sub-expressions; [`text`]: text literals over several lines.
//! - [`var`]: shifting and substitution of variables.
//! - [`normalize`]: reduction to weak head normal form and to normal form;
//!   [`record`]: records as mappings; [`builtins`]: the built-ins.
//! - [`equality`]: equality up to the names of bound variables.
//! - [`context`], [`typed`], [`error`], [`typecheck`]: the typing rules.
//! - [`var_laws`], [`normalize_laws`], [`equality_laws`],
//!   [`typecheck_laws`], [`laws`]: what is proved of all of them.

pub mod builtins;
pub mod context;
pub mod equality;
pub mod equality_laws;
pub mod error;
pub mod laws;
pub mod normalize;
pub mod normalize_laws;
pub mod record;
pub mod syntax;
pub mod text;
pub mod traverse;
pub mod typecheck;
pub mod typecheck_laws;
pub mod typed;
pub mod var;
pub mod var_laws;

pub use context::{EnvItem, TypecheckContext};
pub use error::{TypeError, TypeMessage};
pub use syntax::{BinOp, Builtin, Const, Expr, Term, V};
pub use typecheck::{normalize, Resolved, DEFAULT_BUDGET};
pub use typed::TypedValue;
