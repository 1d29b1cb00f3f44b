//! What the type checker reports when an expression is not well typed.

use vstd::prelude::*;
use crate::context::{clone_context, context_of, Bindings, TypecheckContext};
use crate::syntax::{BinOp, Const, Expr, Name, Term, V};

verus! {

/// The model of a `TypeMessage`.
pub enum Message {
    UnboundVariable(Name, u64),
    InvalidInputType(Term),
    InvalidOutputType(Term),
    NotAFunction(Term),
    TypeMismatch(Term, Term, Term),
    AnnotMismatch(Term, Term),
    InvalidPredicate(Term),
    IfBranchMustBeTerm(bool, Term),
    IfBranchMismatch(Term, Term),
    InvalidListType(Term),
    InvalidListElement(nat, Term, Term),
    InvalidOptionalType(Term),
    InvalidFieldType(Name, Term),
    RecordTypeDuplicateField,
    UnionTypeDuplicateField,
    NotARecord(Name, Term),
    MissingRecordField(Name, Term),
    MissingUnionField(Name, Term),
    BinOpTypeMismatch(BinOp, Term),
    InvalidTextInterpolation(Term),
    RecordMismatch(Term, Term),
    MustCombineRecord(bool, Term),
    FieldCollision(Name),
    RecordTypeMergeRequiresRecordType(bool, Term),
    RecordTypeMismatch(Const, Const, Term, Term),
    EquivalenceArgumentMustBeTerm(bool, Term),
    EquivalenceTypeMismatch(Term, Term),
    AssertMustTakeEquivalence,
    AssertMismatch(Term, Term),
    Merge1ArgMustBeRecord(Term),
    Merge2ArgMustBeUnion(Term),
    MergeAnnotMismatch,
    MergeEmptyNeedsAnnotation,
    MergeHandlerTypeMismatch,
    MergeHandlerMissingVariant(Name),
    MergeVariantMissingHandler(Name),
    MergeHandlerReturnTypeMustNotBeDependent,
    ProjectionMustBeRecord,
    ProjectionMissingEntry,
    Sort,
    Untyped,
    BudgetExhausted,
}

/// The model of a `TypeError`: what went wrong, and the context in which
/// it did.
pub struct Failure {
    pub message: Message,
    pub context: Bindings,
}

/// The kind of a type error, with the expressions at fault.
///
/// Where a variant holds a `bool`, it tells the side: `true` for the left
/// operand or the first branch. `Untyped` is for the type of a value that
/// was taken on trust. `BudgetExhausted` is no finding on the
/// expression: the checker ran out of its budget, or met a number outside
/// the machine's range, before it reached one.
#[derive(Debug, PartialEq, Eq)]
pub enum TypeMessage {
    UnboundVariable(V),
    InvalidInputType(Expr),
    InvalidOutputType(Expr),
    NotAFunction(Expr),
    TypeMismatch(Expr, Expr, Expr),
    AnnotMismatch(Expr, Expr),
    InvalidPredicate(Expr),
    IfBranchMustBeTerm(bool, Expr),
    IfBranchMismatch(Expr, Expr),
    InvalidListType(Expr),
    InvalidListElement(usize, Expr, Expr),
    InvalidOptionalType(Expr),
    InvalidFieldType(String, Expr),
    RecordTypeDuplicateField,
    UnionTypeDuplicateField,
    NotARecord(String, Expr),
    MissingRecordField(String, Expr),
    MissingUnionField(String, Expr),
    BinOpTypeMismatch(BinOp, Expr),
    InvalidTextInterpolation(Expr),
    RecordMismatch(Expr, Expr),
    MustCombineRecord(bool, Expr),
    FieldCollision(String),
    RecordTypeMergeRequiresRecordType(bool, Expr),
    RecordTypeMismatch(Const, Const, Expr, Expr),
    EquivalenceArgumentMustBeTerm(bool, Expr),
    EquivalenceTypeMismatch(Expr, Expr),
    AssertMustTakeEquivalence,
    AssertMismatch(Expr, Expr),
    Merge1ArgMustBeRecord(Expr),
    Merge2ArgMustBeUnion(Expr),
    MergeAnnotMismatch,
    MergeEmptyNeedsAnnotation,
    MergeHandlerTypeMismatch,
    MergeHandlerMissingVariant(String),
    MergeVariantMissingHandler(String),
    MergeHandlerReturnTypeMustNotBeDependent,
    ProjectionMustBeRecord,
    ProjectionMissingEntry,
    Sort,
    Untyped,
    BudgetExhausted,
}

impl View for TypeMessage {
    type V = Message;

    open spec fn view(&self) -> Message {
        match *self {
            TypeMessage::UnboundVariable(v) => Message::UnboundVariable(v.0@, v.1),
            TypeMessage::InvalidInputType(a) => Message::InvalidInputType(a@),
            TypeMessage::InvalidOutputType(a) => Message::InvalidOutputType(a@),
            TypeMessage::NotAFunction(a) => Message::NotAFunction(a@),
            TypeMessage::TypeMismatch(a, b, c) => Message::TypeMismatch(a@, b@, c@),
            TypeMessage::AnnotMismatch(a, b) => Message::AnnotMismatch(a@, b@),
            TypeMessage::InvalidPredicate(a) => Message::InvalidPredicate(a@),
            TypeMessage::IfBranchMustBeTerm(s, a) => Message::IfBranchMustBeTerm(s, a@),
            TypeMessage::IfBranchMismatch(a, b) => Message::IfBranchMismatch(a@, b@),
            TypeMessage::InvalidListType(a) => Message::InvalidListType(a@),
            TypeMessage::InvalidListElement(i, a, b) => Message::InvalidListElement(
                i as nat,
                a@,
                b@,
            ),
            TypeMessage::InvalidOptionalType(a) => Message::InvalidOptionalType(a@),
            TypeMessage::InvalidFieldType(l, a) => Message::InvalidFieldType(l@, a@),
            TypeMessage::RecordTypeDuplicateField => Message::RecordTypeDuplicateField,
            TypeMessage::UnionTypeDuplicateField => Message::UnionTypeDuplicateField,
            TypeMessage::NotARecord(l, a) => Message::NotARecord(l@, a@),
            TypeMessage::MissingRecordField(l, a) => Message::MissingRecordField(l@, a@),
            TypeMessage::MissingUnionField(l, a) => Message::MissingUnionField(l@, a@),
            TypeMessage::BinOpTypeMismatch(o, a) => Message::BinOpTypeMismatch(o, a@),
            TypeMessage::InvalidTextInterpolation(a) => Message::InvalidTextInterpolation(a@),
            TypeMessage::RecordMismatch(a, b) => Message::RecordMismatch(a@, b@),
            TypeMessage::MustCombineRecord(s, a) => Message::MustCombineRecord(s, a@),
            TypeMessage::FieldCollision(l) => Message::FieldCollision(l@),
            TypeMessage::RecordTypeMergeRequiresRecordType(s, a) => {
                Message::RecordTypeMergeRequiresRecordType(s, a@)
            },
            TypeMessage::RecordTypeMismatch(k, l, a, b) => Message::RecordTypeMismatch(
                k,
                l,
                a@,
                b@,
            ),
            TypeMessage::EquivalenceArgumentMustBeTerm(s, a) => {
                Message::EquivalenceArgumentMustBeTerm(s, a@)
            },
            TypeMessage::EquivalenceTypeMismatch(a, b) => Message::EquivalenceTypeMismatch(a@, b@),
            TypeMessage::AssertMustTakeEquivalence => Message::AssertMustTakeEquivalence,
            TypeMessage::AssertMismatch(a, b) => Message::AssertMismatch(a@, b@),
            TypeMessage::Merge1ArgMustBeRecord(a) => Message::Merge1ArgMustBeRecord(a@),
            TypeMessage::Merge2ArgMustBeUnion(a) => Message::Merge2ArgMustBeUnion(a@),
            TypeMessage::MergeAnnotMismatch => Message::MergeAnnotMismatch,
            TypeMessage::MergeEmptyNeedsAnnotation => Message::MergeEmptyNeedsAnnotation,
            TypeMessage::MergeHandlerTypeMismatch => Message::MergeHandlerTypeMismatch,
            TypeMessage::MergeHandlerMissingVariant(l) => Message::MergeHandlerMissingVariant(l@),
            TypeMessage::MergeVariantMissingHandler(l) => Message::MergeVariantMissingHandler(l@),
            TypeMessage::MergeHandlerReturnTypeMustNotBeDependent => {
                Message::MergeHandlerReturnTypeMustNotBeDependent
            },
            TypeMessage::ProjectionMustBeRecord => Message::ProjectionMustBeRecord,
            TypeMessage::ProjectionMissingEntry => Message::ProjectionMissingEntry,
            TypeMessage::Sort => Message::Sort,
            TypeMessage::Untyped => Message::Untyped,
            TypeMessage::BudgetExhausted => Message::BudgetExhausted,
        }
    }
}

/// A type error: its kind, and the context at the point of failure.
#[derive(Debug, PartialEq, Eq)]
pub struct TypeError {
    pub type_message: TypeMessage,
    pub context: TypecheckContext,
}

impl View for TypeError {
    type V = Failure;

    open spec fn view(&self) -> Failure {
        Failure { message: self.type_message@, context: context_of(self.context) }
    }
}

impl TypeError {
    /// The error `type_message`, met in `context`.
    pub fn new(context: &TypecheckContext, type_message: TypeMessage) -> (r: TypeError)
        ensures
            r@ == (Failure { message: type_message@, context: context_of(*context) }),
    {
        TypeError { type_message, context: clone_context(context) }
    }
}

/// What a kind of error says, in a few words.
pub open spec fn spec_description(m: Message) -> Seq<char> {
    match m {
        Message::InvalidInputType(_) => "Invalid function input"@,
        Message::InvalidOutputType(_) => "Invalid function output"@,
        Message::NotAFunction(_) => "Not a function"@,
        Message::TypeMismatch(_, _, _) => "Wrong type of function argument"@,
        _ => "Unhandled error"@,
    }
}

impl TypeMessage {
    /// A short description of the error.
    pub fn description(&self) -> (r: &'static str)
        ensures
            r@ == spec_description(self@),
    {
        match self {
            TypeMessage::InvalidInputType(_) => "Invalid function input",
            TypeMessage::InvalidOutputType(_) => "Invalid function output",
            TypeMessage::NotAFunction(_) => "Not a function",
            TypeMessage::TypeMismatch(_, _, _) => "Wrong type of function argument",
            _ => "Unhandled error",
        }
    }
}

} // verus!
