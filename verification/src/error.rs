//! How an evaluation can end without a program.

use crate::classical::ClassicalRequest;
use crate::fir::Span;
use vstd::prelude::*;

verus! {

/// Why the classical evaluator failed, in its own words.
#[derive(Clone, Debug, PartialEq, Eq)]
pub struct EvalError {
    pub message: String,
}

impl View for EvalError {
    type V = Seq<char>;

    open spec fn view(&self) -> Seq<char> {
        self.message@
    }
}

impl EvalError {
    /// A second error that is the same.
    pub fn duplicate(&self) -> (error: EvalError)
        ensures
            error@ == self@,
    {
        EvalError { message: self.message.clone() }
    }
}

/// An error in the program that is evaluated.
#[derive(Clone, Debug, PartialEq, Eq)]
pub enum Error {
    /// The classical evaluator failed.
    EvaluationFailed(EvalError),
    /// The block of the named callable failed.
    FailedToEvaluateCallable(String, Span),
    /// The callee of a call, or its argument, failed.
    FailedToEvaluateCalleeExpression(Span),
    /// An element of a tuple failed.
    FailedToEvaluateTupleElementExpression(Span),
    /// An operand of a binary operator failed.
    FailedToEvaluateBinaryExpressionOperand(Span),
    /// Instructions cannot be generated yet for this kind of expression.
    Unimplemented(String, Span),
}

/// What an error is.
pub enum ErrorModel {
    EvaluationFailed(Seq<char>),
    FailedToEvaluateCallable(Seq<char>, Span),
    FailedToEvaluateCalleeExpression(Span),
    FailedToEvaluateTupleElementExpression(Span),
    FailedToEvaluateBinaryExpressionOperand(Span),
    Unimplemented(Seq<char>, Span),
}

impl View for Error {
    type V = ErrorModel;

    open spec fn view(&self) -> ErrorModel {
        match *self {
            Error::EvaluationFailed(error) => ErrorModel::EvaluationFailed(error@),
            Error::FailedToEvaluateCallable(name, span) => ErrorModel::FailedToEvaluateCallable(
                name@,
                span,
            ),
            Error::FailedToEvaluateCalleeExpression(span) =>
                ErrorModel::FailedToEvaluateCalleeExpression(span),
            Error::FailedToEvaluateTupleElementExpression(span) =>
                ErrorModel::FailedToEvaluateTupleElementExpression(span),
            Error::FailedToEvaluateBinaryExpressionOperand(span) =>
                ErrorModel::FailedToEvaluateBinaryExpressionOperand(span),
            Error::Unimplemented(what, span) => ErrorModel::Unimplemented(what@, span),
        }
    }
}

/// A condition that no program accepted by the earlier passes brings about. Evaluation cannot go
/// on from it, and the caller is expected to treat it as a defect.
#[derive(Copy, Clone, Debug, PartialEq, Eq)]
pub enum Fault {
    /// The package has no entry expression.
    NoEntryExpression,
    MissingPackage,
    MissingBlock,
    MissingExpr,
    MissingPat,
    MissingStmt,
    MissingGlobal,
    /// The analysis says nothing of an expression or a statement.
    MissingComputeKind,
    /// An expression whose value is to be bound has none.
    MissingExprValue,
    /// A local variable that is read has no value.
    MissingLocalVar,
    /// A tuple pattern is bound to an expression that is not a tuple.
    NotATupleExpression,
    /// A tuple pattern and a tuple expression differ in length.
    TupleLengthMismatch,
    ClosureExpression,
    FailExpression,
    HoleExpression,
    LiteralExpression,
    RangeExpression,
    StringExpression,
    /// Classical evaluation of an expression ended without a value.
    NoValueReturned,
    CalleeNotGlobal,
    GlobalNotCallable,
    MissingAdjoint,
    MissingControlled,
    MissingControlledAdjoint,
    /// A value of a kind that no operand can hold.
    UnmappableValue,
    NotAPrimitiveType,
    UnsupportedPrimitiveType,
    UnresolvedName,
    /// A measurement of something other than a qubit.
    MeasuredNotAQubit,
    /// A release of something other than a qubit.
    ReleasedNotAQubit,
    /// A release of a qubit that was never allocated.
    ReleasedUnknownQubit,
    QubitIdTooLarge,
    ResultIdTooLarge,
    /// No identifier is left for a callable, a variable, a result or a call.
    IdentifiersExhausted,
}

/// Why an evaluation stopped before it was decided.
#[derive(Copy, Clone, Debug, PartialEq, Eq)]
pub enum Stop {
    /// The classical evaluator has to answer this first.
    Pending(ClassicalRequest),
    /// Expressions or patterns nest deeper than the given limit.
    DepthLimit,
    Fault(Fault),
}

} // verus!
