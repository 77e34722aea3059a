//! What the single steps of an evaluation do: asking the classical evaluator, resolving names,
//! comparing values and calling intrinsics.

use crate::classical::{ClassicalReplyModel, ClassicalRequest, ClassicalTarget};
use crate::error::{ErrorModel, Fault, Stop};
use crate::fir::{
    BinOp, CallableDecl, CallableImpl, ExecGraphRange, Expr, ExprId, FunctorApp, Global, ItemId,
    LocalItemId, LocalVarId, Res, SpecDecl, Specializations, Stmt, StmtId, StoreItemId,
};
use crate::lowering::{
    bin_op_text, call_operands, intrinsic_callable, lower_type, lower_value, mresetz_model,
    mz_model, read_result_model, spec_decl,
};
use crate::rir::{
    CallableModel, ConditionCode, InstructionModel, Literal, Operand, Ty, Variable,
};
use crate::semantics::{
    apply_bin_op, call_intrinsic, classical_request, comparison_operand, eval_classical_expr,
    eval_classical_stmt, eval_result_as_bool_operand, eval_var, take_reply, InputsModel,
    StateModel,
};
use crate::state_laws::{
    adds_error, generated, innermost, law_allocated_qubit, same_but_qubits, takes_variable,
    uses_qubit, uses_reply,
};
use crate::value::{MeasurementResult, Qubit, ValueModel};
use vstd::prelude::*;

verus! {

/// Whether a callable of that name is in the program or can still be added.
pub open spec fn has_room_for(st: StateModel, name: Seq<char>) -> bool {
    st.callable_ids.contains_key(name) || st.resources.next_callable < u32::MAX
}

/// Two states that agree on everything but the callables, the instructions of the current block,
/// and the identifiers of callables, results and variables.
pub open spec fn same_surroundings(a: StateModel, b: StateModel) -> bool {
    &&& b.next_reply == a.next_reply
    &&& b.context == a.context
    &&& b.errors == a.errors
    &&& b.resources.qubits_in_use == a.resources.qubits_in_use
    &&& b.resources.next_block == a.resources.next_block
    &&& b.program.entry == a.program.entry
    &&& b.program.blocks.remove(a.context.current_block) == a.program.blocks.remove(
        a.context.current_block,
    )
    &&& b.program.blocks.contains_key(a.context.current_block)
}

/// Two states of which the second has one more instruction, a call of the callable with the given
/// name, which the program held already or holds now.
pub open spec fn adds_call(
    a: StateModel,
    b: StateModel,
    callable: CallableModel,
    args: Seq<Operand>,
    output: Option<Variable>,
) -> bool {
    let id = b.callable_ids[callable.name];
    &&& same_surroundings(a, b)
    &&& generated(b) == generated(a).push(InstructionModel::Call(id, args, output))
    &&& a.callable_ids.contains_key(callable.name) ==> {
        &&& b.callable_ids == a.callable_ids
        &&& b.program.callables == a.program.callables
        &&& b.resources.next_callable == a.resources.next_callable
    }
    &&& !a.callable_ids.contains_key(callable.name) ==> {
        &&& id == a.resources.next_callable
        &&& b.callable_ids == a.callable_ids.insert(callable.name, id)
        &&& b.program.callables == a.program.callables.insert(id, callable)
        &&& b.resources.next_callable == a.resources.next_callable + 1
    }
}

/// A request is answered by the first reply that was not used yet. Without one, the evaluation
/// waits for exactly this request.
pub proof fn law_replies_are_used_in_order(
    inputs: InputsModel,
    st: StateModel,
    request: ClassicalRequest,
)
    ensures
        st.next_reply >= inputs.replies.len() ==> take_reply(inputs, st, request) == Err::<
            (StateModel, ClassicalReplyModel),
            Stop,
        >(Stop::Pending(request)),
        st.next_reply < inputs.replies.len() ==> {
            &&& take_reply(inputs, st, request) is Ok
            &&& take_reply(inputs, st, request) matches Ok((st1, reply)) ==> uses_reply(st, st1)
                && reply == inputs.replies[st.next_reply as int]
        },
{
}

/// A request tells the call that asks, its package, and what is to be run. In the entry scope it
/// names the entry graph of the package.
pub proof fn law_request_of_entry_scope(
    inputs: InputsModel,
    st: StateModel,
    target: ClassicalTarget,
    range: ExecGraphRange,
)
    ensures
        classical_request(inputs, st, target, range).scope == innermost(st).id,
        classical_request(inputs, st, target, range).package == innermost(st).package_id,
        classical_request(inputs, st, target, range).range == range,
        classical_request(inputs, st, target, range).target == target,
        innermost(st).callable is None && inputs.store.packages@.contains_key(
            innermost(st).package_id as int,
        ) ==> classical_request(inputs, st, target, range).exec_graph
            == inputs.store.packages@[innermost(st).package_id as int].entry_exec_graph,
{
}

/// In the scope of a call a request names the graph of the specialization that runs.
pub proof fn law_request_of_call_scope(
    inputs: InputsModel,
    st: StateModel,
    target: ClassicalTarget,
    range: ExecGraphRange,
    item: LocalItemId,
    functors: FunctorApp,
    decl: CallableDecl,
    specializations: Specializations,
    running: SpecDecl,
)
    requires
        innermost(st).callable == Some((item, functors)),
        inputs.store.global(StoreItemId { package: innermost(st).package_id, item }) == Some(
            Global::Callable(decl),
        ),
        decl.implementation == CallableImpl::Spec(specializations),
        spec_decl(specializations, functors) == Ok::<SpecDecl, Fault>(running),
    ensures
        classical_request(inputs, st, target, range).exec_graph == running.exec_graph,
{
}

/// A classical expression is left to the classical evaluator: its value is the value replied, its
/// error the error replied, and the section asked for is that of the expression.
pub proof fn law_classical_expression(
    inputs: InputsModel,
    st: StateModel,
    id: ExprId,
    expr: Expr,
)
    ensures
        st.next_reply >= inputs.replies.len() ==> (eval_classical_expr(
            inputs,
            st,
            id,
            expr,
        ) matches Err(Stop::Pending(request)) && request == classical_request(
            inputs,
            st,
            ClassicalTarget::Expr(id),
            expr.exec_graph_range,
        )),
        st.next_reply < inputs.replies.len() ==> match inputs.replies[st.next_reply as int] {
            ClassicalReplyModel::Returned(value) => eval_classical_expr(
                inputs,
                st,
                id,
                expr,
            ) matches Ok((st1, result)) && uses_reply(st, st1) && result == Ok::<
                ValueModel,
                ErrorModel,
            >(value),
            ClassicalReplyModel::Failed(message) => eval_classical_expr(
                inputs,
                st,
                id,
                expr,
            ) matches Ok((st1, result)) && uses_reply(st, st1) && result == Err::<
                ValueModel,
                ErrorModel,
            >(ErrorModel::EvaluationFailed(message)),
            ClassicalReplyModel::Interrupted => eval_classical_expr(
                inputs,
                st,
                id,
                expr,
            ) matches Err(stop) && stop == Stop::Fault(Fault::NoValueReturned),
        },
{
}

/// A classical statement is left to the classical evaluator: it changes nothing but that a reply
/// is used, and an error replied becomes an error.
pub proof fn law_classical_statement(
    inputs: InputsModel,
    st: StateModel,
    id: StmtId,
    stmt: Stmt,
    after: StateModel,
)
    requires
        inputs.store.stmt(innermost(st).package_id, id) == Some(stmt),
        uses_reply(st, after),
    ensures
        st.next_reply >= inputs.replies.len() ==> (eval_classical_stmt(inputs, st, id) matches Err(
            Stop::Pending(request),
        ) && request == classical_request(
            inputs,
            st,
            ClassicalTarget::Stmt(id),
            stmt.exec_graph_range,
        )),
        st.next_reply < inputs.replies.len() ==> match inputs.replies[st.next_reply as int] {
            ClassicalReplyModel::Failed(message) => eval_classical_stmt(
                inputs,
                st,
                id,
            ) matches Ok(st1) && adds_error(
                after,
                st1,
                ErrorModel::EvaluationFailed(message),
            ),
            _ => eval_classical_stmt(inputs, st, id) matches Ok(st1) && uses_reply(st, st1),
        },
{
}

/// A classical statement that the package does not hold is a fault.
pub proof fn law_missing_classical_statement(inputs: InputsModel, st: StateModel, id: StmtId)
    requires
        inputs.store.stmt(innermost(st).package_id, id) is None,
    ensures
        eval_classical_stmt(inputs, st, id) == Err::<StateModel, Stop>(
            Stop::Fault(Fault::MissingStmt),
        ),
{
}

/// A name that resolves to an item stands for that item, without functors: in the package that
/// the name gives, or else in the package of the innermost scope, whichever that is.
pub proof fn law_item_names(st: StateModel, item: ItemId)
    ensures
        eval_var(st, Res::Item(item)) matches Ok(ValueModel::Global(id, functors)) && {
            &&& id.item == item.item
            &&& item.package matches Some(package) ==> id.package == package
            &&& item.package is None ==> id.package == innermost(st).package_id
            &&& !functors.adjoint
            &&& functors.controlled == 0
        },
{
}

/// A name that resolves to a local variable stands for the value that the variable has in the
/// innermost scope; without one, and when it resolves to nothing, it is a fault.
pub proof fn law_local_names(st: StateModel, id: LocalVarId)
    ensures
        innermost(st).local_vars.contains_key(id) ==> eval_var(st, Res::Local(id)) == Ok::<
            ValueModel,
            Fault,
        >(innermost(st).local_vars[id]),
        !innermost(st).local_vars.contains_key(id) ==> eval_var(st, Res::Local(id)) == Err::<
            ValueModel,
            Fault,
        >(Fault::MissingLocalVar),
        eval_var(st, Res::Unresolved) == Err::<ValueModel, Fault>(Fault::UnresolvedName),
{
}

/// A known measurement result is compared as the truth value that it is, without any
/// instruction.
pub proof fn law_known_result_is_a_literal(st: StateModel, b: bool)
    ensures
        comparison_operand(st, ValueModel::Result(MeasurementResult::Val(b))) == Ok::<
            (StateModel, Operand),
            Stop,
        >((st, Operand::Literal(Literal::Bool(b)))),
        eval_result_as_bool_operand(st, MeasurementResult::Val(b)) == Ok::<
            (StateModel, Operand),
            Stop,
        >((st, Operand::Literal(Literal::Bool(b)))),
{
}

/// A value that is no measurement result is compared as the literal of the same content, without
/// any instruction.
pub proof fn law_plain_value_is_compared(st: StateModel, value: ValueModel)
    requires
        !(value is Result),
    ensures
        lower_value(value) matches Ok(operand) ==> comparison_operand(st, value) == Ok::<
            (StateModel, Operand),
            Stop,
        >((st, operand)),
        lower_value(value) matches Err(fault) ==> comparison_operand(st, value) == Err::<
            (StateModel, Operand),
            Stop,
        >(Stop::Fault(fault)),
{
}

/// A measurement result that only the running program knows is read before it is compared: one
/// readout of that result into a new Boolean variable, which is the operand.
pub proof fn law_unknown_result_is_read(st: StateModel, id: usize)
    ensures
        eval_result_as_bool_operand(st, MeasurementResult::Id(id)) == comparison_operand(
            st,
            ValueModel::Result(MeasurementResult::Id(id)),
        ),
        id > u32::MAX ==> comparison_operand(st, ValueModel::Result(MeasurementResult::Id(id)))
            == Err::<(StateModel, Operand), Stop>(Stop::Fault(Fault::ResultIdTooLarge)),
        id <= u32::MAX && !(has_room_for(st, read_result_model().name) && st.resources.next_var
            < u32::MAX) ==> comparison_operand(st, ValueModel::Result(MeasurementResult::Id(id)))
            == Err::<(StateModel, Operand), Stop>(Stop::Fault(Fault::IdentifiersExhausted)),
        id <= u32::MAX && has_room_for(st, read_result_model().name) && st.resources.next_var
            < u32::MAX ==> (comparison_operand(
            st,
            ValueModel::Result(MeasurementResult::Id(id)),
        ) matches Ok((st1, Operand::Variable(variable))) && {
            &&& variable.variable_id == st.resources.next_var
            &&& variable.ty == Ty::Boolean
            &&& adds_call(
                st,
                st1,
                read_result_model(),
                seq![Operand::Literal(Literal::Result(id as u32))],
                Some(variable),
            )
            &&& st1.resources.next_var == st.resources.next_var + 1
            &&& st1.resources.next_result == st.resources.next_result
        }),
{
    if comparison_operand(st, ValueModel::Result(MeasurementResult::Id(id))) is Ok {
        let (st1, _) = comparison_operand(
            st,
            ValueModel::Result(MeasurementResult::Id(id)),
        )->Ok_0;
        assert(st1.program.blocks.remove(st.context.current_block) =~= st.program.blocks.remove(
            st.context.current_block,
        ));
    }
}

/// The outcome of comparing two operands, left before right, into a new variable.
pub open spec fn compares(
    a: StateModel,
    b: StateModel,
    code: ConditionCode,
    lhs: Operand,
    rhs: Operand,
    variable: Variable,
) -> bool {
    &&& same_surroundings(a, b)
    &&& b.callable_ids == a.callable_ids
    &&& b.program.callables == a.program.callables
    &&& b.resources.next_callable == a.resources.next_callable
    &&& b.resources.next_result == a.resources.next_result
    &&& b.resources.next_var == a.resources.next_var + 1
    &&& variable.variable_id == a.resources.next_var
    &&& generated(b) == generated(a).push(InstructionModel::Icmp(code, lhs, rhs, variable))
}

/// Equality and inequality become one comparison of the two operands, in the order written, into
/// a new variable of the expression's type, which is the value. The operands are prepared left
/// before right. Every other operator is an error at the expression.
pub proof fn law_operators(
    st: StateModel,
    expr: Expr,
    op: BinOp,
    lhs: ValueModel,
    rhs: ValueModel,
    st1: StateModel,
    lhs_operand: Operand,
    st2: StateModel,
    rhs_operand: Operand,
    ty: Ty,
)
    requires
        comparison_operand(st, lhs) == Ok::<(StateModel, Operand), Stop>((st1, lhs_operand)),
        comparison_operand(st1, rhs) == Ok::<(StateModel, Operand), Stop>((st2, rhs_operand)),
        lower_type(expr.ty) == Ok::<Ty, Fault>(ty),
        st2.resources.next_var < u32::MAX,
    ensures
        op is Eq || op is Neq ==> (apply_bin_op(st, expr, op, lhs, rhs) matches Ok(
            (st3, Ok(ValueModel::Var(var))),
        ) && {
            let variable = Variable { variable_id: st2.resources.next_var, ty };
            let code = if op is Eq {
                ConditionCode::Eq
            } else {
                ConditionCode::Ne
            };
            &&& var.0 == variable.variable_id
            &&& compares(st2, st3, code, lhs_operand, rhs_operand, variable)
        }),
        !(op is Eq || op is Neq) ==> (apply_bin_op(st, expr, op, lhs, rhs) matches Ok(
            (st3, Err(error)),
        ) && takes_variable(st2, st3) && error == ErrorModel::Unimplemented(
            bin_op_text(op),
            expr.span,
        )),
{
    let (st3, _) = apply_bin_op(st, expr, op, lhs, rhs)->Ok_0;
    assert(st3.program.blocks.remove(st2.context.current_block) =~= st2.program.blocks.remove(
        st2.context.current_block,
    ));
}

/// An operator does not get past an operand that cannot be compared, a type that cannot be
/// lowered, or the last variable; the left operand decides before the right one.
pub proof fn law_operators_stop(
    st: StateModel,
    expr: Expr,
    op: BinOp,
    lhs: ValueModel,
    rhs: ValueModel,
)
    ensures
        comparison_operand(st, lhs) matches Err(stop) ==> apply_bin_op(st, expr, op, lhs, rhs)
            == Err::<(StateModel, Result<ValueModel, ErrorModel>), Stop>(stop),
        comparison_operand(st, lhs) matches Ok((st1, _)) ==> {
            &&& comparison_operand(st1, rhs) matches Err(stop) ==> apply_bin_op(
                st,
                expr,
                op,
                lhs,
                rhs,
            ) == Err::<(StateModel, Result<ValueModel, ErrorModel>), Stop>(stop)
            &&& comparison_operand(st1, rhs) matches Ok((st2, _)) ==> {
                &&& lower_type(expr.ty) matches Err(fault) ==> apply_bin_op(st, expr, op, lhs, rhs)
                    == Err::<(StateModel, Result<ValueModel, ErrorModel>), Stop>(
                    Stop::Fault(fault),
                )
                &&& lower_type(expr.ty) is Ok && st2.resources.next_var == u32::MAX
                    ==> apply_bin_op(st, expr, op, lhs, rhs) == Err::<
                    (StateModel, Result<ValueModel, ErrorModel>),
                    Stop,
                >(Stop::Fault(Fault::IdentifiersExhausted))
            }
        },
{
}

/// The names of the intrinsics that are treated specially are four different ones.
pub proof fn lemma_special_names_differ()
    ensures
        "__quantum__rt__qubit_allocate"@ != "__quantum__rt__qubit_release"@,
        "__quantum__rt__qubit_allocate"@ != "__quantum__qis__m__body"@,
        "__quantum__rt__qubit_allocate"@ != "__quantum__qis__mresetz__body"@,
        "__quantum__rt__qubit_release"@ != "__quantum__qis__m__body"@,
        "__quantum__rt__qubit_release"@ != "__quantum__qis__mresetz__body"@,
        "__quantum__qis__m__body"@ != "__quantum__qis__mresetz__body"@,
{
    reveal_strlit("__quantum__rt__qubit_allocate");
    reveal_strlit("__quantum__rt__qubit_release");
    reveal_strlit("__quantum__qis__m__body");
    reveal_strlit("__quantum__qis__mresetz__body");
    assert("__quantum__rt__qubit_allocate"@[21] == 'a');
    assert("__quantum__rt__qubit_release"@[21] == 'r');
    assert("__quantum__rt__qubit_allocate"@[11] == 'r');
    assert("__quantum__rt__qubit_release"@[11] == 'r');
    assert("__quantum__qis__m__body"@[11] == 'q');
    assert("__quantum__qis__mresetz__body"@[11] == 'q');
    assert("__quantum__qis__m__body"@[17] == '_');
    assert("__quantum__qis__mresetz__body"@[17] == 'r');
}

/// Qubit allocation gives the lowest qubit that is not in use; from then on it is, while every
/// other qubit is in use exactly if it was before. No instruction is generated.
pub proof fn law_qubit_allocation(
    st: StateModel,
    decl: CallableDecl,
    args: ValueModel,
    other: int,
)
    requires
        decl.name.name@ == "__quantum__rt__qubit_allocate"@,
        st.resources.qubits_in_use.len() <= usize::MAX,
    ensures
        call_intrinsic(st, decl, args) matches Ok((st1, ValueModel::Qubit(qubit))) && {
            &&& same_but_qubits(st, st1)
            &&& !uses_qubit(st, qubit.0 as int)
            &&& uses_qubit(st1, qubit.0 as int)
            &&& 0 <= other < qubit.0 ==> uses_qubit(st, other)
            &&& other != qubit.0 ==> uses_qubit(st1, other) == uses_qubit(st, other)
            &&& st1.resources.qubits_in_use.len() >= st.resources.qubits_in_use.len()
            &&& st1.resources.qubits_in_use.len() > qubit.0
            &&& st1.resources.qubits_in_use.len() <= st.resources.qubits_in_use.len() + 1
            &&& qubit.0 < st.resources.qubits_in_use.len()
                ==> st1.resources.qubits_in_use.len() == st.resources.qubits_in_use.len()
        },
{
    law_allocated_qubit(st.resources, other);
}

/// After the release of an allocated qubit it is not in use, and every other qubit is in use
/// exactly if it was before. The value is unit and no instruction is generated. Anything that is
/// no qubit, and a qubit that was never allocated, is a fault.
pub proof fn law_qubit_release(st: StateModel, decl: CallableDecl, args: ValueModel, other: int)
    requires
        decl.name.name@ == "__quantum__rt__qubit_release"@,
    ensures
        !(args is Qubit) ==> call_intrinsic(st, decl, args) == Err::<
            (StateModel, ValueModel),
            Stop,
        >(Stop::Fault(Fault::ReleasedNotAQubit)),
        args matches ValueModel::Qubit(qubit) ==> {
            &&& qubit.0 >= st.resources.qubits_in_use.len() ==> call_intrinsic(st, decl, args)
                == Err::<(StateModel, ValueModel), Stop>(
                Stop::Fault(Fault::ReleasedUnknownQubit),
            )
            &&& qubit.0 < st.resources.qubits_in_use.len() ==> (call_intrinsic(
                st,
                decl,
                args,
            ) matches Ok((st1, value)) && {
                &&& same_but_qubits(st, st1)
                &&& !uses_qubit(st1, qubit.0 as int)
                &&& other != qubit.0 ==> uses_qubit(st1, other) == uses_qubit(st, other)
                &&& st1.resources.qubits_in_use.len() == st.resources.qubits_in_use.len()
                &&& value == ValueModel::unit()
            })
        },
{
    lemma_special_names_differ();
}

/// What a measurement does: one call of the measurement with the measured qubit and a new result,
/// in this order; the value is that result, which only the running program knows.
pub open spec fn measures(
    st: StateModel,
    callable: CallableModel,
    qubit: Qubit,
    st1: StateModel,
    value: ValueModel,
) -> bool {
    &&& value == ValueModel::Result(MeasurementResult::Id(st.resources.next_result))
    &&& adds_call(
        st,
        st1,
        callable,
        seq![
            Operand::Literal(Literal::Qubit(qubit.0 as u32)),
            Operand::Literal(Literal::Result(st.resources.next_result as u32)),
        ],
        None,
    )
    &&& st1.resources.next_result == st.resources.next_result + 1
    &&& st1.resources.next_var == st.resources.next_var
}

/// Whether an intrinsic is a measurement, and which callable of the runtime performs it.
pub open spec fn is_measured_by(decl: CallableDecl, callable: CallableModel) -> bool {
    ||| decl.name.name@ == "__quantum__qis__m__body"@ && callable == mz_model()
    ||| decl.name.name@ == "__quantum__qis__mresetz__body"@ && callable == mresetz_model()
}

/// The two measurement intrinsics measure the qubit that they are given, the one with and the
/// other without a reset.
pub proof fn law_measurement(
    st: StateModel,
    decl: CallableDecl,
    qubit: Qubit,
    callable: CallableModel,
)
    requires
        is_measured_by(decl, callable),
        qubit.0 <= u32::MAX,
        st.resources.next_result <= u32::MAX,
        st.resources.next_result < usize::MAX,
        has_room_for(st, callable.name),
    ensures
        call_intrinsic(st, decl, ValueModel::Qubit(qubit)) matches Ok((st1, value)) && measures(
            st,
            callable,
            qubit,
            st1,
            value,
        ),
{
    lemma_special_names_differ();
    let (st1, _) = call_intrinsic(st, decl, ValueModel::Qubit(qubit))->Ok_0;
    assert(st1.program.blocks.remove(st.context.current_block) =~= st.program.blocks.remove(
        st.context.current_block,
    ));
}

/// A measurement of something that is no qubit, or whose identifiers do not fit the generated
/// program, is a fault.
pub proof fn law_measurement_faults(
    st: StateModel,
    decl: CallableDecl,
    args: ValueModel,
    callable: CallableModel,
)
    requires
        is_measured_by(decl, callable),
    ensures
        !(args is Qubit) ==> call_intrinsic(st, decl, args) == Err::<
            (StateModel, ValueModel),
            Stop,
        >(Stop::Fault(Fault::MeasuredNotAQubit)),
        args matches ValueModel::Qubit(qubit) ==> {
            &&& qubit.0 > u32::MAX ==> call_intrinsic(st, decl, args) == Err::<
                (StateModel, ValueModel),
                Stop,
            >(Stop::Fault(Fault::QubitIdTooLarge))
            &&& qubit.0 <= u32::MAX && u32::MAX < st.resources.next_result < usize::MAX
                ==> call_intrinsic(st, decl, args) == Err::<(StateModel, ValueModel), Stop>(
                Stop::Fault(Fault::ResultIdTooLarge),
            )
            &&& qubit.0 <= u32::MAX && st.resources.next_result == usize::MAX ==> call_intrinsic(
                st,
                decl,
                args,
            ) == Err::<(StateModel, ValueModel), Stop>(Stop::Fault(Fault::IdentifiersExhausted))
            &&& qubit.0 <= u32::MAX && st.resources.next_result <= u32::MAX && !has_room_for(
                st,
                callable.name,
            ) ==> call_intrinsic(st, decl, args) == Err::<(StateModel, ValueModel), Stop>(
                Stop::Fault(Fault::IdentifiersExhausted),
            )
        },
{
    lemma_special_names_differ();
}

/// Whether an intrinsic is none of those that are treated specially.
pub open spec fn is_ordinary(decl: CallableDecl) -> bool {
    &&& decl.name.name@ != "__quantum__rt__qubit_allocate"@
    &&& decl.name.name@ != "__quantum__rt__qubit_release"@
    &&& decl.name.name@ != "__quantum__qis__m__body"@
    &&& decl.name.name@ != "__quantum__qis__mresetz__body"@
}

/// An ordinary intrinsic becomes one call of the callable of its name, with the operands of its
/// arguments and without an output; the value is unit.
pub proof fn law_ordinary_intrinsic(
    st: StateModel,
    decl: CallableDecl,
    args: ValueModel,
    callable: CallableModel,
    operands: Seq<Operand>,
)
    requires
        is_ordinary(decl),
        intrinsic_callable(decl) == Ok::<CallableModel, Fault>(callable),
        call_operands(args) == Ok::<Seq<Operand>, Fault>(operands),
        has_room_for(st, callable.name),
    ensures
        call_intrinsic(st, decl, args) matches Ok((st1, value)) && {
            &&& adds_call(st, st1, callable, operands, None)
            &&& st1.resources.next_result == st.resources.next_result
            &&& st1.resources.next_var == st.resources.next_var
            &&& value == ValueModel::unit()
        },
{
    let (st1, _) = call_intrinsic(st, decl, args)->Ok_0;
    assert(st1.program.blocks.remove(st.context.current_block) =~= st.program.blocks.remove(
        st.context.current_block,
    ));
}

/// An ordinary intrinsic whose types or arguments have no counterpart in the generated program is
/// a fault, and so is one for which no identifier is left.
pub proof fn law_ordinary_intrinsic_faults(st: StateModel, decl: CallableDecl, args: ValueModel)
    requires
        is_ordinary(decl),
    ensures
        intrinsic_callable(decl) matches Err(fault) ==> call_intrinsic(st, decl, args) == Err::<
            (StateModel, ValueModel),
            Stop,
        >(Stop::Fault(fault)),
        intrinsic_callable(decl) matches Ok(callable) ==> {
            &&& !has_room_for(st, callable.name) ==> call_intrinsic(st, decl, args) == Err::<
                (StateModel, ValueModel),
                Stop,
            >(Stop::Fault(Fault::IdentifiersExhausted))
            &&& has_room_for(st, callable.name) ==> (call_operands(args) matches Err(fault)
                ==> call_intrinsic(st, decl, args) == Err::<(StateModel, ValueModel), Stop>(
                Stop::Fault(fault),
            ))
        },
{
}

} // verus!
