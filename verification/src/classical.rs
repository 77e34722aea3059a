//! What the classical evaluator is asked, and what it answers.

use crate::error::EvalError;
use crate::evaluation_context::ScopeId;
use crate::fir::{ExecGraphId, ExecGraphRange, ExprId, PackageId, StmtId};
use crate::value::{Value, ValueModel};
use vstd::prelude::*;

verus! {

/// What is to be evaluated.
#[derive(Copy, Clone, Debug, PartialEq, Eq)]
pub enum ClassicalTarget {
    Expr(ExprId),
    Stmt(StmtId),
}

/// Asks to run a section of an execution graph in the environment of a scope.
#[derive(Copy, Clone, Debug, PartialEq, Eq)]
pub struct ClassicalRequest {
    /// The call whose environment is used. Each call starts with an environment of its own.
    pub scope: ScopeId,
    pub package: PackageId,
    pub exec_graph: ExecGraphId,
    pub range: ExecGraphRange,
    pub target: ClassicalTarget,
}

/// The answer to a request.
#[derive(Debug)]
pub enum ClassicalReply {
    /// The section ran to its end with this value.
    Returned(Value),
    /// The section stopped without a value.
    Interrupted,
    Failed(EvalError),
}

/// What a reply is.
pub enum ClassicalReplyModel {
    Returned(ValueModel),
    Interrupted,
    Failed(Seq<char>),
}

impl View for ClassicalReply {
    type V = ClassicalReplyModel;

    open spec fn view(&self) -> ClassicalReplyModel {
        match *self {
            ClassicalReply::Returned(value) => ClassicalReplyModel::Returned(value@),
            ClassicalReply::Interrupted => ClassicalReplyModel::Interrupted,
            ClassicalReply::Failed(error) => ClassicalReplyModel::Failed(error@),
        }
    }
}

/// What the replies in a sequence are.
pub open spec fn replies_model(replies: Seq<ClassicalReply>) -> Seq<ClassicalReplyModel> {
    replies.map_values(|reply: ClassicalReply| reply@)
}

} // verus!
