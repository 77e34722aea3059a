//! What the models of values and programs tell: everything that the modelled value holds.

use crate::classical::{replies_model, ClassicalReply, ClassicalReplyModel};
use crate::error::{Error, ErrorModel, EvalError, Stop};
use crate::evaluator::Outcome;
use crate::fir::{FunctorApp, Span, StoreItemId};
use crate::rir::{
    Block, BlockId, Callable, CallableId, ConditionCode, Instruction, InstructionModel, Operand,
    Program, Variable,
};
use crate::semantics::OutcomeModel;
use crate::value::{
    values_model, DoubleBits, HeldValue, MeasurementResult, Qubit, Value, ValueModel, Var,
};
use vstd::prelude::*;

verus! {

/// The model of a value that is no tuple has the same kind and content.
pub proof fn law_plain_value_model(
    b: bool,
    d: DoubleBits,
    id: StoreItemId,
    functors: FunctorApp,
    held: HeldValue,
    i: i64,
    q: Qubit,
    r: MeasurementResult,
    v: Var,
)
    ensures
        Value::Bool(b)@ == ValueModel::Bool(b),
        Value::Double(d)@ == ValueModel::Double(d),
        Value::Global(id, functors)@ == ValueModel::Global(id, functors),
        Value::Held(held)@ == ValueModel::Held(held),
        Value::Int(i)@ == ValueModel::Int(i),
        Value::Qubit(q)@ == ValueModel::Qubit(q),
        Value::Result(r)@ == ValueModel::Result(r),
        Value::Var(v)@ == ValueModel::Var(v),
{
}

/// The model of a tuple has the models of its elements, in order.
pub proof fn law_tuple_value_model(elements: Vec<Value>, i: int)
    ensures
        Value::Tuple(elements)@ is Tuple,
        Value::Tuple(elements)@->Tuple_0.len() == elements@.len(),
        0 <= i < elements@.len() ==> Value::Tuple(elements)@->Tuple_0[i] == elements@[i]@,
        values_model(elements@).len() == elements@.len(),
        0 <= i < elements@.len() ==> values_model(elements@)[i] == elements@[i]@,
{
}

/// Unit is the tuple without elements; a variable of the program is told by its identifier.
pub proof fn law_special_values(id: u32)
    ensures
        ValueModel::unit() is Tuple,
        ValueModel::unit()->Tuple_0.len() == 0,
        ValueModel::variable(id) is Var,
        ValueModel::variable(id)->Var_0.0 == id,
{
}

/// The model of an error has its kind, its text and its place.
pub proof fn law_error_model(error: EvalError, text: String, span: Span)
    ensures
        error@ == error.message@,
        Error::EvaluationFailed(error)@ == ErrorModel::EvaluationFailed(error.message@),
        Error::FailedToEvaluateCallable(text, span)@ == ErrorModel::FailedToEvaluateCallable(
            text@,
            span,
        ),
        Error::FailedToEvaluateCalleeExpression(span)@
            == ErrorModel::FailedToEvaluateCalleeExpression(span),
        Error::FailedToEvaluateTupleElementExpression(span)@
            == ErrorModel::FailedToEvaluateTupleElementExpression(span),
        Error::FailedToEvaluateBinaryExpressionOperand(span)@
            == ErrorModel::FailedToEvaluateBinaryExpressionOperand(span),
        Error::Unimplemented(text, span)@ == ErrorModel::Unimplemented(text@, span),
{
}

/// The model of a reply has its kind and content; a list of replies is modelled in order.
pub proof fn law_reply_model(
    value: Value,
    error: EvalError,
    replies: Seq<ClassicalReply>,
    i: int,
)
    ensures
        ClassicalReply::Returned(value)@ == ClassicalReplyModel::Returned(value@),
        ClassicalReply::Interrupted@ == ClassicalReplyModel::Interrupted,
        ClassicalReply::Failed(error)@ == ClassicalReplyModel::Failed(error.message@),
        replies_model(replies).len() == replies.len(),
        0 <= i < replies.len() ==> replies_model(replies)[i] == replies[i]@,
{
}

/// The model of an outcome has its kind and content.
pub proof fn law_outcome_model(program: Program, error: Error, stop: Stop)
    ensures
        Outcome::Complete(program)@ == OutcomeModel::Complete(program@),
        Outcome::Failed(error)@ == OutcomeModel::Failed(error@),
        Outcome::Stopped(stop)@ == OutcomeModel::Stopped(stop),
{
}

/// The model of an instruction has its kind and operands, in order.
pub proof fn law_instruction_model(
    id: CallableId,
    args: Vec<Operand>,
    output: Option<Variable>,
    code: ConditionCode,
    lhs: Operand,
    rhs: Operand,
    variable: Variable,
)
    ensures
        Instruction::Call(id, args, output)@ == InstructionModel::Call(id, args@, output),
        Instruction::Icmp(code, lhs, rhs, variable)@ == InstructionModel::Icmp(
            code,
            lhs,
            rhs,
            variable,
        ),
        Instruction::Return@ == InstructionModel::Return,
{
}

/// The model of a block has its instructions, in order.
pub proof fn law_block_model(block: Block, i: int)
    ensures
        block@.len() == block.0@.len(),
        0 <= i < block.0@.len() ==> block@[i] == block.0@[i]@,
{
}

/// The model of a callable has all of its parts.
pub proof fn law_callable_model(callable: Callable)
    ensures
        callable@.name == callable.name@,
        callable@.input_type == callable.input_type@,
        callable@.output_type == callable.output_type,
        callable@.body == callable.body,
        callable@.call_type == callable.call_type,
{
}

/// The model of a program has its entry, and its callables and blocks under their identifiers.
pub proof fn law_program_model(program: Program, callable: CallableId, block: BlockId)
    ensures
        program@.entry == program.entry,
        program@.callables.contains_key(callable) <==> program.callables@.contains_key(
            callable as int,
        ),
        program@.callables.contains_key(callable) ==> program@.callables[callable]
            == program.callables@[callable as int]@,
        program@.blocks.contains_key(block) <==> program.blocks@.contains_key(block as int),
        program@.blocks.contains_key(block) ==> program@.blocks[block]
            == program.blocks@[block as int]@,
{
}

} // verus!
