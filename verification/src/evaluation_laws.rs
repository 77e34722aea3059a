//! How the evaluation of an expression, a statement, a block, a pattern and a whole program
//! follows from that of its parts.

use crate::classical::{ClassicalReplyModel, ClassicalTarget};
use crate::error::{ErrorModel, Fault, Stop};
use crate::fir::{
    BinOp, Block, BlockId, CallableDecl, CallableImpl, Expr, ExprId, ExprKind, FunctorApp, Global,
    PackageId, Pat, PatId, PatKind, Res, SpecDecl, Specializations, Stmt, StmtId, StmtKind,
    StoreItemId,
};
use crate::lowering::spec_decl;
use crate::rca::ComputeKind;
use crate::rir::InstructionModel;
use crate::semantics::{
    apply_bin_op, bind_expr_to_pat, bind_exprs_to_pats, call_intrinsic, classical_request,
    eval_classical_stmt, eval_expr, eval_tuple, eval_var, evaluate, initial_state, try_eval_expr,
    visit_block, visit_expr, visit_stmt, visit_stmts, InputsModel, OutcomeModel, StateModel,
};
use crate::state_laws::{
    adds_error, enters_call, generated, innermost, leaves_call, records_value, sets_local,
    uses_reply,
};
use crate::validity::{lemma_visit_expr, state_valid};
use crate::value::ValueModel;
use vstd::prelude::*;

verus! {

/// Evaluating an expression ends without an error in a state that holds its value.
pub open spec fn yields(
    inputs: InputsModel,
    depth: nat,
    st: StateModel,
    id: ExprId,
    after: StateModel,
    value: ValueModel,
) -> bool {
    &&& visit_expr(inputs, depth, st, id) == Ok::<StateModel, Stop>(after)
    &&& after.errors.len() == 0
    &&& value == innermost(after).expr_values[id]
}

/// Evaluating an expression ends with an error.
pub open spec fn fails(
    inputs: InputsModel,
    depth: nat,
    st: StateModel,
    id: ExprId,
    after: StateModel,
) -> bool {
    &&& visit_expr(inputs, depth, st, id) == Ok::<StateModel, Stop>(after)
    &&& after.errors.len() > 0
}

/// An expression is not evaluated beyond the depth limit, without a compute kind, or when its
/// package does not hold it.
pub proof fn law_expression_stops(inputs: InputsModel, depth: nat, st: StateModel, id: ExprId)
    ensures
        depth == 0 ==> visit_expr(inputs, depth, st, id) == Err::<StateModel, Stop>(
            Stop::DepthLimit,
        ),
        depth > 0 && inputs.compute_properties.expr(innermost(st).package_id, id) is None
            ==> visit_expr(inputs, depth, st, id) == Err::<StateModel, Stop>(
            Stop::Fault(Fault::MissingComputeKind),
        ),
        depth > 0 && inputs.compute_properties.expr(innermost(st).package_id, id) is Some
            && inputs.store.expr(innermost(st).package_id, id) is None ==> visit_expr(
            inputs,
            depth,
            st,
            id,
        ) == Err::<StateModel, Stop>(Stop::Fault(Fault::MissingExpr)),
{
}

/// A classical expression is not looked into: the next reply gives the value that is recorded for
/// it, or the error that is added.
pub proof fn law_classical_expression_is_asked_for(
    inputs: InputsModel,
    depth: nat,
    st: StateModel,
    id: ExprId,
    expr: Expr,
    answered: StateModel,
)
    requires
        depth > 0,
        st.context.scopes.len() > 0,
        inputs.compute_properties.expr(innermost(st).package_id, id) == Some(
            ComputeKind::Classical,
        ),
        inputs.store.expr(innermost(st).package_id, id) == Some(expr),
        uses_reply(st, answered),
    ensures
        st.next_reply >= inputs.replies.len() ==> (visit_expr(inputs, depth, st, id) matches Err(
            Stop::Pending(request),
        ) && request == classical_request(
            inputs,
            st,
            ClassicalTarget::Expr(id),
            expr.exec_graph_range,
        )),
        st.next_reply < inputs.replies.len() ==> match inputs.replies[st.next_reply as int] {
            ClassicalReplyModel::Returned(value) => visit_expr(inputs, depth, st, id) matches Ok(
                st1,
            ) && records_value(answered, st1, id, value),
            ClassicalReplyModel::Failed(message) => visit_expr(inputs, depth, st, id) matches Ok(
                st1,
            ) && adds_error(answered, st1, ErrorModel::EvaluationFailed(message)),
            ClassicalReplyModel::Interrupted => visit_expr(inputs, depth, st, id) matches Err(
                stop,
            ) && stop == Stop::Fault(Fault::NoValueReturned),
        },
{
}

/// For any other expression instructions are generated: its value is recorded, or its error
/// added, behind all that this changed.
pub proof fn law_quantum_expression_is_generated(
    inputs: InputsModel,
    depth: nat,
    st: StateModel,
    id: ExprId,
    expr: Expr,
)
    requires
        depth > 0,
        inputs.compute_properties.expr(innermost(st).package_id, id) == Some(ComputeKind::Quantum),
        inputs.store.expr(innermost(st).package_id, id) == Some(expr),
    ensures
        match eval_expr(inputs, (depth - 1) as nat, st, expr) {
            Ok((st1, Ok(value))) => st1.context.scopes.len() > 0 ==> (visit_expr(
                inputs,
                depth,
                st,
                id,
            ) matches Ok(st2) && records_value(st1, st2, id, value)),
            Ok((st1, Err(error))) => visit_expr(inputs, depth, st, id) matches Ok(st2)
                && adds_error(st1, st2, error),
            Err(stop) => visit_expr(inputs, depth, st, id) matches Err(other) && other == stop,
        },
{
}

/// A name stands for what it resolves to, and evaluating it changes nothing.
pub proof fn law_name_expression(
    inputs: InputsModel,
    depth: nat,
    st: StateModel,
    expr: Expr,
    res: Res,
)
    requires
        expr.kind == ExprKind::Var(res),
    ensures
        match eval_var(st, res) {
            Ok(value) => eval_expr(inputs, depth, st, expr) matches Ok((st1, Ok(other))) && st1
                == st && other == value,
            Err(fault) => eval_expr(inputs, depth, st, expr) matches Err(stop) && stop
                == Stop::Fault(fault),
        },
{
}

/// Whether an expression is an error with the given description, and changes nothing else.
pub open spec fn is_unimplemented(
    inputs: InputsModel,
    depth: nat,
    st: StateModel,
    expr: Expr,
    what: Seq<char>,
) -> bool {
    eval_expr(inputs, depth, st, expr) matches Ok((st1, Err(error))) && st1 == st && error
        == ErrorModel::Unimplemented(what, expr.span)
}

/// The kinds of expressions for which there are no instructions yet are errors that name the kind
/// and the place.
pub proof fn law_unimplemented_kinds(inputs: InputsModel, depth: nat, st: StateModel, expr: Expr)
    ensures
        expr.kind is Array ==> is_unimplemented(inputs, depth, st, expr, "Array Expr"@),
        expr.kind is ArrayLit ==> is_unimplemented(inputs, depth, st, expr, "Array Lit"@),
        expr.kind is ArrayRepeat ==> is_unimplemented(inputs, depth, st, expr, "Array Repeat"@),
        expr.kind is Assign ==> is_unimplemented(inputs, depth, st, expr, "Assignment Expr"@),
        expr.kind is AssignField ==> is_unimplemented(
            inputs,
            depth,
            st,
            expr,
            "Field Assignment Expr"@,
        ),
        expr.kind is AssignIndex ==> is_unimplemented(
            inputs,
            depth,
            st,
            expr,
            "Assignment Index Expr"@,
        ),
        expr.kind is AssignOp ==> is_unimplemented(inputs, depth, st, expr, "Assignment Op Expr"@),
        expr.kind is Block ==> is_unimplemented(inputs, depth, st, expr, "Block Expr"@),
        expr.kind is Field ==> is_unimplemented(inputs, depth, st, expr, "Field Expr"@),
        expr.kind is If ==> is_unimplemented(inputs, depth, st, expr, "If Expr"@),
        expr.kind is Index ==> is_unimplemented(inputs, depth, st, expr, "Index Expr"@),
        expr.kind is Return ==> is_unimplemented(inputs, depth, st, expr, "Return Expr"@),
        expr.kind is UnOp ==> is_unimplemented(inputs, depth, st, expr, "Unary Expr"@),
        expr.kind is UpdateField ==> is_unimplemented(
            inputs,
            depth,
            st,
            expr,
            "Updated Field Expr"@,
        ),
        expr.kind is UpdateIndex ==> is_unimplemented(
            inputs,
            depth,
            st,
            expr,
            "Update Index Expr"@,
        ),
        expr.kind is While ==> is_unimplemented(inputs, depth, st, expr, "While Expr"@),
{
}

/// Whether an expression is the given fault.
pub open spec fn is_fault(
    inputs: InputsModel,
    depth: nat,
    st: StateModel,
    expr: Expr,
    fault: Fault,
) -> bool {
    eval_expr(inputs, depth, st, expr) matches Err(stop) && stop == Stop::Fault(fault)
}

/// The kinds of expressions for which instructions are never generated are faults.
pub proof fn law_invalid_kinds(inputs: InputsModel, depth: nat, st: StateModel, expr: Expr)
    ensures
        expr.kind is Closure ==> is_fault(inputs, depth, st, expr, Fault::ClosureExpression),
        expr.kind is Fail ==> is_fault(inputs, depth, st, expr, Fault::FailExpression),
        expr.kind is Hole ==> is_fault(inputs, depth, st, expr, Fault::HoleExpression),
        expr.kind is Lit ==> is_fault(inputs, depth, st, expr, Fault::LiteralExpression),
        expr.kind is Range ==> is_fault(inputs, depth, st, expr, Fault::RangeExpression),
        expr.kind is String ==> is_fault(inputs, depth, st, expr, Fault::StringExpression),
{
}

/// A binary expression evaluates its left operand, then its right operand from the state that the
/// left one left behind, and applies the operator to their values in this order.
pub proof fn law_binary_expression(
    inputs: InputsModel,
    depth: nat,
    st: StateModel,
    expr: Expr,
    op: BinOp,
    lhs: ExprId,
    rhs: ExprId,
    st1: StateModel,
    lhs_value: ValueModel,
    st2: StateModel,
    rhs_value: ValueModel,
)
    requires
        expr.kind == ExprKind::BinOp(op, lhs, rhs),
        yields(inputs, depth, st, lhs, st1, lhs_value),
        yields(inputs, depth, st1, rhs, st2, rhs_value),
    ensures
        eval_expr(inputs, depth, st, expr) == apply_bin_op(st2, expr, op, lhs_value, rhs_value),
{
}

/// A binary expression ends with the first operand that fails, as an error at that operand; the
/// right operand is not evaluated when the left one fails.
pub proof fn law_failing_operand(
    inputs: InputsModel,
    depth: nat,
    st: StateModel,
    expr: Expr,
    op: BinOp,
    lhs: ExprId,
    rhs: ExprId,
    st1: StateModel,
    lhs_value: ValueModel,
    st2: StateModel,
    operand: Expr,
)
    requires
        expr.kind == ExprKind::BinOp(op, lhs, rhs),
    ensures
        fails(inputs, depth, st, lhs, st1) && inputs.store.expr(innermost(st1).package_id, lhs)
            == Some(operand) ==> (eval_expr(inputs, depth, st, expr) matches Ok((after, Err(error)))
            && after == st1 && error == ErrorModel::FailedToEvaluateBinaryExpressionOperand(
            operand.span,
        )),
        yields(inputs, depth, st, lhs, st1, lhs_value) && fails(inputs, depth, st1, rhs, st2)
            && inputs.store.expr(innermost(st2).package_id, rhs) == Some(operand) ==> (eval_expr(
            inputs,
            depth,
            st,
            expr,
        ) matches Ok((after, Err(error))) && after == st2 && error
            == ErrorModel::FailedToEvaluateBinaryExpressionOperand(operand.span)),
        visit_expr(inputs, depth, st, lhs) matches Err(stop) ==> (eval_expr(
            inputs,
            depth,
            st,
            expr,
        ) matches Err(other) && other == stop),
        yields(inputs, depth, st, lhs, st1, lhs_value) ==> (visit_expr(
            inputs,
            depth,
            st1,
            rhs,
        ) matches Err(stop) ==> (eval_expr(inputs, depth, st, expr) matches Err(other) && other
            == stop)),
{
}

/// A call whose callee or argument fails is an error at the one that fails, the callee first.
pub proof fn law_failing_call_part(
    inputs: InputsModel,
    depth: nat,
    st: StateModel,
    expr: Expr,
    callee: ExprId,
    args: ExprId,
    st1: StateModel,
    callable: ValueModel,
    st2: StateModel,
    part: Expr,
)
    requires
        expr.kind == ExprKind::Call(callee, args),
    ensures
        fails(inputs, depth, st, callee, st1) && inputs.store.expr(
            innermost(st1).package_id,
            callee,
        ) == Some(part) ==> (eval_expr(inputs, depth, st, expr) matches Ok((after, Err(error)))
            && after == st1 && error == ErrorModel::FailedToEvaluateCalleeExpression(part.span)),
        yields(inputs, depth, st, callee, st1, callable) && fails(inputs, depth, st1, args, st2)
            && inputs.store.expr(innermost(st2).package_id, args) == Some(part) ==> (eval_expr(
            inputs,
            depth,
            st,
            expr,
        ) matches Ok((after, Err(error))) && after == st2 && error
            == ErrorModel::FailedToEvaluateCalleeExpression(part.span)),
        visit_expr(inputs, depth, st, callee) matches Err(stop) ==> (eval_expr(
            inputs,
            depth,
            st,
            expr,
        ) matches Err(other) && other == stop),
        yields(inputs, depth, st, callee, st1, callable) ==> (visit_expr(
            inputs,
            depth,
            st1,
            args,
        ) matches Err(stop) ==> (eval_expr(inputs, depth, st, expr) matches Err(other) && other
            == stop)),
{
}

/// A callee that is no global item, that the store does not hold, or that is no callable, is a
/// fault.
pub proof fn law_wrong_callee(
    inputs: InputsModel,
    depth: nat,
    st: StateModel,
    expr: Expr,
    callee: ExprId,
    args: ExprId,
    st1: StateModel,
    callable: ValueModel,
    st2: StateModel,
    value: ValueModel,
)
    requires
        expr.kind == ExprKind::Call(callee, args),
        yields(inputs, depth, st, callee, st1, callable),
        yields(inputs, depth, st1, args, st2, value),
    ensures
        !(callable is Global) ==> is_fault(inputs, depth, st, expr, Fault::CalleeNotGlobal),
        callable matches ValueModel::Global(id, _) ==> {
            &&& inputs.store.global(id) is None ==> is_fault(
                inputs,
                depth,
                st,
                expr,
                Fault::MissingGlobal,
            )
            &&& inputs.store.global(id) == Some(Global::Udt) ==> is_fault(
                inputs,
                depth,
                st,
                expr,
                Fault::GlobalNotCallable,
            )
        },
{
}

/// A call of an intrinsic evaluates callee and argument, in this order, and calls the intrinsic
/// with the value of the argument; its value is the value of the call.
pub proof fn law_call_of_intrinsic(
    inputs: InputsModel,
    depth: nat,
    st: StateModel,
    expr: Expr,
    callee: ExprId,
    args: ExprId,
    st1: StateModel,
    id: StoreItemId,
    functors: FunctorApp,
    st2: StateModel,
    value: ValueModel,
    decl: CallableDecl,
)
    requires
        expr.kind == ExprKind::Call(callee, args),
        yields(inputs, depth, st, callee, st1, ValueModel::Global(id, functors)),
        yields(inputs, depth, st1, args, st2, value),
        inputs.store.global(id) == Some(Global::Callable(decl)),
        decl.implementation is Intrinsic,
    ensures
        match call_intrinsic(st2, decl, value) {
            Ok((st3, result)) => eval_expr(inputs, depth, st, expr) matches Ok((after, Ok(other)))
                && after == st3 && other == result,
            Err(stop) => eval_expr(inputs, depth, st, expr) matches Err(other) && other == stop,
        },
{
}

/// A call of a specialization runs the block that the functors select in a new scope, and leaves
/// that scope again. Its value is unit; when an error is left, it is an error at the callable.
pub proof fn law_call_of_specialization(
    inputs: InputsModel,
    depth: nat,
    st: StateModel,
    expr: Expr,
    callee: ExprId,
    args: ExprId,
    st1: StateModel,
    id: StoreItemId,
    functors: FunctorApp,
    st2: StateModel,
    value: ValueModel,
    decl: CallableDecl,
    specializations: Specializations,
    running: SpecDecl,
    entered: StateModel,
)
    requires
        expr.kind == ExprKind::Call(callee, args),
        yields(inputs, depth, st, callee, st1, ValueModel::Global(id, functors)),
        yields(inputs, depth, st1, args, st2, value),
        inputs.store.global(id) == Some(Global::Callable(decl)),
        decl.implementation == CallableImpl::Spec(specializations),
        spec_decl(specializations, functors) == Ok::<SpecDecl, Fault>(running),
        st2.context.next_scope < usize::MAX,
        enters_call(st2, entered, id, functors),
    ensures
        match visit_block(inputs, depth, entered, running.block) {
            Err(stop) => eval_expr(inputs, depth, st, expr) matches Err(other) && other == stop,
            Ok(st3) => st3.context.scopes.len() > 0 ==> (eval_expr(
                inputs,
                depth,
                st,
                expr,
            ) matches Ok((st4, result)) && {
                &&& leaves_call(st3, st4)
                &&& st3.errors.len() == 0 ==> result == Ok::<ValueModel, ErrorModel>(
                    ValueModel::unit(),
                )
                &&& st3.errors.len() > 0 ==> result == Err::<ValueModel, ErrorModel>(
                    ErrorModel::FailedToEvaluateCallable(decl.name.name@, decl.name.span),
                )
            }),
        },
{
    let pushed = st2.push_call(id, functors);
    assert(innermost(entered).expr_values =~= innermost(pushed).expr_values);
    assert(innermost(entered).local_vars =~= innermost(pushed).local_vars);
    assert(innermost(entered) == innermost(pushed));
    assert(entered.context.scopes =~= pushed.context.scopes);
    assert(entered == pushed);
}

/// A call of a specialization that does not exist is a fault, and so is one for which no
/// identifier is left.
pub proof fn law_call_faults(
    inputs: InputsModel,
    depth: nat,
    st: StateModel,
    expr: Expr,
    callee: ExprId,
    args: ExprId,
    st1: StateModel,
    id: StoreItemId,
    functors: FunctorApp,
    st2: StateModel,
    value: ValueModel,
    decl: CallableDecl,
    specializations: Specializations,
)
    requires
        expr.kind == ExprKind::Call(callee, args),
        yields(inputs, depth, st, callee, st1, ValueModel::Global(id, functors)),
        yields(inputs, depth, st1, args, st2, value),
        inputs.store.global(id) == Some(Global::Callable(decl)),
        decl.implementation == CallableImpl::Spec(specializations),
    ensures
        spec_decl(specializations, functors) matches Err(fault) ==> is_fault(
            inputs,
            depth,
            st,
            expr,
            fault,
        ),
        spec_decl(specializations, functors) is Ok && st2.context.next_scope == usize::MAX
            ==> is_fault(inputs, depth, st, expr, Fault::IdentifiersExhausted),
{
}

/// The first `n` expressions are evaluated one after the other, each from the state that the one
/// before left behind, and yield the given values.
pub open spec fn elements_yield(
    inputs: InputsModel,
    depth: nat,
    exprs: Seq<ExprId>,
    states: Seq<StateModel>,
    values: Seq<ValueModel>,
    n: int,
) -> bool {
    &&& 0 <= n <= exprs.len()
    &&& states.len() == n + 1
    &&& values.len() == n
    &&& forall|i: int|
        0 <= i < n ==> yields(
            inputs,
            depth,
            states[i],
            #[trigger] exprs[i],
            states[i + 1],
            values[i],
        )
}

/// When evaluating a tuple expression succeeds, its value is a tuple with as many elements, and
/// the element at each place is the value that evaluating the expression at that place gave. The
/// elements are evaluated in order, and nothing else happens.
pub proof fn law_tuple_value(
    inputs: InputsModel,
    depth: nat,
    st: StateModel,
    expr: Expr,
    exprs: Vec<ExprId>,
)
    requires
        expr.kind == ExprKind::Tuple(exprs),
    ensures
        eval_expr(inputs, depth, st, expr) matches Ok((after, Ok(value))) ==> {
            &&& value is Tuple
            &&& value->Tuple_0.len() == exprs@.len()
            &&& exists|states: Seq<StateModel>|
                {
                    &&& #[trigger] elements_yield(
                        inputs,
                        depth,
                        exprs@,
                        states,
                        value->Tuple_0,
                        exprs@.len() as int,
                    )
                    &&& states[0] == st
                    &&& states[exprs@.len() as int] == after
                }
        },
{
    if let Ok((after, Ok(value))) = eval_expr(inputs, depth, st, expr) {
        let states = lemma_tuple_states(inputs, depth, st, exprs@, 0, Seq::empty());
        assert(elements_yield(
            inputs,
            depth,
            exprs@,
            states,
            value->Tuple_0,
            exprs@.len() as int,
        ));
    }
}

proof fn lemma_tuple_states(
    inputs: InputsModel,
    depth: nat,
    st: StateModel,
    exprs: Seq<ExprId>,
    k: int,
    values: Seq<ValueModel>,
) -> (states: Seq<StateModel>)
    requires
        0 <= k <= exprs.len(),
        values.len() == k,
        eval_tuple(inputs, depth, st, exprs, k, values) matches Ok((_, Ok(_))),
    ensures
        eval_tuple(inputs, depth, st, exprs, k, values) matches Ok((after, Ok(value))) && {
            &&& value is Tuple
            &&& value->Tuple_0.len() == exprs.len()
            &&& forall|i: int| 0 <= i < k ==> value->Tuple_0[i] == values[i]
            &&& states.len() == exprs.len() - k + 1
            &&& states[0] == st
            &&& states[exprs.len() - k] == after
            &&& forall|i: int|
                k <= i < exprs.len() ==> yields(
                    inputs,
                    depth,
                    states[i - k],
                    #[trigger] exprs[i],
                    states[i - k + 1],
                    value->Tuple_0[i],
                )
        },
    decreases exprs.len() - k,
{
    if k < exprs.len() {
        let (st1, found) = try_eval_expr(inputs, depth, st, exprs[k])->Ok_0;
        let value = found->Some_0;
        let rest = lemma_tuple_states(inputs, depth, st1, exprs, k + 1, values.push(value));
        let states = seq![st] + rest;
        let (after, result) = eval_tuple(inputs, depth, st, exprs, k, values)->Ok_0;
        let elements = result->Ok_0->Tuple_0;
        assert(elements[k] == values.push(value)[k]);
        assert forall|i: int| 0 <= i < k implies elements[i] == values[i] by {
            assert(elements[i] == values.push(value)[i]);
        }
        assert forall|i: int| k <= i < exprs.len() implies yields(
            inputs,
            depth,
            states[i - k],
            #[trigger] exprs[i],
            states[i - k + 1],
            elements[i],
        ) by {
            assert(states[i - k + 1] == rest[i - k]);
            if i > k {
                assert(states[i - k] == rest[i - k - 1]);
            }
        }
        states
    } else {
        seq![st]
    }
}

/// A tuple expression succeeds when its elements do. It ends with the first element that fails,
/// as an error at that element, and the elements behind are not evaluated.
pub proof fn law_tuple_follows_elements(
    inputs: InputsModel,
    depth: nat,
    st: StateModel,
    expr: Expr,
    exprs: Vec<ExprId>,
    states: Seq<StateModel>,
    values: Seq<ValueModel>,
    n: int,
    failed: StateModel,
    element: Expr,
)
    requires
        expr.kind == ExprKind::Tuple(exprs),
        elements_yield(inputs, depth, exprs@, states, values, n),
        states[0] == st,
    ensures
        n == exprs@.len() ==> (eval_expr(inputs, depth, st, expr) matches Ok((after, Ok(value)))
            && after == states[n] && value == ValueModel::Tuple(values)),
        n < exprs@.len() && fails(inputs, depth, states[n], exprs@[n], failed)
            && inputs.store.expr(innermost(failed).package_id, exprs@[n]) == Some(element) ==> (
        eval_expr(inputs, depth, st, expr) matches Ok((after, Err(error))) && after == failed
            && error == ErrorModel::FailedToEvaluateTupleElementExpression(element.span)),
        n < exprs@.len() ==> (visit_expr(inputs, depth, states[n], exprs@[n]) matches Err(stop)
            ==> (eval_expr(inputs, depth, st, expr) matches Err(other) && other == stop)),
{
    lemma_tuple_prefix(inputs, depth, exprs@, states, values, n, n);
    assert(values.take(n) =~= values);
    assert(eval_expr(inputs, depth, st, expr) == eval_tuple(
        inputs,
        depth,
        states[n],
        exprs@,
        n,
        values,
    ));
    lemma_tuple_step(inputs, depth, states[n], exprs@, n, values);
}

/// What happens at one place of a tuple.
proof fn lemma_tuple_step(
    inputs: InputsModel,
    depth: nat,
    st: StateModel,
    exprs: Seq<ExprId>,
    i: int,
    values: Seq<ValueModel>,
)
    requires
        0 <= i <= exprs.len(),
    ensures
        i == exprs.len() ==> (eval_tuple(inputs, depth, st, exprs, i, values) matches Ok(
            (after, Ok(value)),
        ) && after == st && value == ValueModel::Tuple(values)),
        i < exprs.len() ==> match visit_expr(inputs, depth, st, exprs[i]) {
            Err(stop) => eval_tuple(inputs, depth, st, exprs, i, values) matches Err(other)
                && other == stop,
            Ok(st1) => {
                &&& st1.errors.len() == 0 ==> eval_tuple(inputs, depth, st, exprs, i, values)
                    == eval_tuple(
                    inputs,
                    depth,
                    st1,
                    exprs,
                    i + 1,
                    values.push(innermost(st1).expr_values[exprs[i]]),
                )
                &&& st1.errors.len() > 0 && inputs.store.expr(
                    innermost(st1).package_id,
                    exprs[i],
                ) is Some ==> (eval_tuple(inputs, depth, st, exprs, i, values) matches Ok(
                    (after, Err(error)),
                ) && after == st1 && error == ErrorModel::FailedToEvaluateTupleElementExpression(
                    inputs.store.expr(innermost(st1).package_id, exprs[i])->Some_0.span,
                ))
            },
        },
{
    if i < exprs.len() {
        let flow = try_eval_expr(inputs, depth, st, exprs[i]);
        match visit_expr(inputs, depth, st, exprs[i]) {
            Err(stop) => {
                assert(flow matches Err(other) && other == stop);
            },
            Ok(st1) => {
                if st1.errors.len() == 0 {
                    let value = innermost(st1).expr_values[exprs[i]];
                    assert(flow == Ok::<(StateModel, Option<ValueModel>), Stop>(
                        (st1, Some(value)),
                    ));
                    assert(eval_tuple(inputs, depth, st, exprs, i, values) == eval_tuple(
                        inputs,
                        depth,
                        st1,
                        exprs,
                        i + 1,
                        values.push(value),
                    ));
                } else {
                    assert(flow == Ok::<(StateModel, Option<ValueModel>), Stop>((st1, None)));
                }
            },
        }
    }
}

proof fn lemma_tuple_prefix(
    inputs: InputsModel,
    depth: nat,
    exprs: Seq<ExprId>,
    states: Seq<StateModel>,
    values: Seq<ValueModel>,
    n: int,
    k: int,
)
    requires
        elements_yield(inputs, depth, exprs, states, values, n),
        0 <= k <= n,
    ensures
        eval_tuple(inputs, depth, states[0], exprs, 0, Seq::empty()) == eval_tuple(
            inputs,
            depth,
            states[k],
            exprs,
            k,
            values.take(k),
        ),
    decreases k,
{
    if k > 0 {
        lemma_tuple_prefix(inputs, depth, exprs, states, values, n, k - 1);
        assert(yields(
            inputs,
            depth,
            states[k - 1],
            exprs[k - 1],
            states[k - 1 + 1],
            values[k - 1],
        ));
        lemma_tuple_step(inputs, depth, states[k - 1], exprs, k - 1, values.take(k - 1));
        assert(values.take(k - 1).push(values[k - 1]) =~= values.take(k));
    } else {
        assert(values.take(0) =~= Seq::empty());
    }
}

/// A statement that is an expression, with or without a semicolon, is the evaluation of that
/// expression: whatever it generates is generated, and when no error is left its value is known.
pub proof fn law_expression_statement(
    inputs: InputsModel,
    depth: nat,
    st: StateModel,
    id: StmtId,
    stmt: Stmt,
    expr: ExprId,
)
    requires
        state_valid(inputs, st),
        inputs.compute_properties.stmt(innermost(st).package_id, id) == Some(ComputeKind::Quantum),
        inputs.store.stmt(innermost(st).package_id, id) == Some(stmt),
        stmt.kind == StmtKind::Expr(expr) || stmt.kind == StmtKind::Semi(expr),
    ensures
        visit_stmt(inputs, depth, st, id) == visit_expr(inputs, depth, st, expr),
        visit_stmt(inputs, depth, st, id) matches Ok(st1) ==> {
            &&& generated(st).is_prefix_of(generated(st1))
            &&& st1.errors.len() == 0 ==> innermost(st1).expr_values.contains_key(expr)
        },
{
    lemma_visit_expr(inputs, depth, st, expr);
}

/// A statement with a pattern evaluates the expression and then binds it to the pattern; a
/// statement that declares an item does nothing.
pub proof fn law_other_statements(
    inputs: InputsModel,
    depth: nat,
    st: StateModel,
    id: StmtId,
    stmt: Stmt,
)
    requires
        inputs.compute_properties.stmt(innermost(st).package_id, id) == Some(ComputeKind::Quantum),
        inputs.store.stmt(innermost(st).package_id, id) == Some(stmt),
    ensures
        stmt.kind is Item ==> visit_stmt(inputs, depth, st, id) == Ok::<StateModel, Stop>(st),
        stmt.kind matches StmtKind::Local(pat, expr) ==> match visit_expr(
            inputs,
            depth,
            st,
            expr,
        ) {
            Ok(st1) => visit_stmt(inputs, depth, st, id) == bind_expr_to_pat(
                inputs,
                depth,
                st1,
                pat,
                expr,
            ),
            Err(stop) => visit_stmt(inputs, depth, st, id) == Err::<StateModel, Stop>(stop),
        },
{
}

/// A classical statement is left to the classical evaluator; a statement without a compute kind,
/// or that its package does not hold, is a fault.
pub proof fn law_statement_kinds(inputs: InputsModel, depth: nat, st: StateModel, id: StmtId)
    ensures
        inputs.compute_properties.stmt(innermost(st).package_id, id) == Some(
            ComputeKind::Classical,
        ) ==> visit_stmt(inputs, depth, st, id) == eval_classical_stmt(inputs, st, id),
        inputs.compute_properties.stmt(innermost(st).package_id, id) is None ==> visit_stmt(
            inputs,
            depth,
            st,
            id,
        ) == Err::<StateModel, Stop>(Stop::Fault(Fault::MissingComputeKind)),
        inputs.compute_properties.stmt(innermost(st).package_id, id) == Some(ComputeKind::Quantum)
            && inputs.store.stmt(innermost(st).package_id, id) is None ==> visit_stmt(
            inputs,
            depth,
            st,
            id,
        ) == Err::<StateModel, Stop>(Stop::Fault(Fault::MissingStmt)),
{
}

/// The first `n` statements are run one after the other, each from the state that the one before
/// left behind, and none of them leaves an error.
pub open spec fn statements_run(
    inputs: InputsModel,
    depth: nat,
    stmts: Seq<StmtId>,
    states: Seq<StateModel>,
    n: int,
) -> bool {
    &&& 0 <= n <= stmts.len()
    &&& states.len() == n + 1
    &&& forall|i: int|
        0 <= i < n ==> visit_stmt(inputs, depth, states[i], #[trigger] stmts[i]) == Ok::<
            StateModel,
            Stop,
        >(states[i + 1]) && states[i + 1].errors.len() == 0
}

/// A block runs all of its statements in order, or up to and with the first that leaves an error;
/// the statements behind that one are not run.
pub proof fn law_block_runs_its_statements(
    inputs: InputsModel,
    depth: nat,
    st: StateModel,
    id: BlockId,
    block: Block,
    states: Seq<StateModel>,
    n: int,
)
    requires
        inputs.store.block(innermost(st).package_id, id) == Some(block),
        statements_run(inputs, depth, block.stmts@, states, n),
        states[0] == st,
    ensures
        n == block.stmts@.len() ==> visit_block(inputs, depth, st, id) == Ok::<StateModel, Stop>(
            states[n],
        ),
        n < block.stmts@.len() ==> match visit_stmt(inputs, depth, states[n], block.stmts@[n]) {
            Err(stop) => visit_block(inputs, depth, st, id) == Err::<StateModel, Stop>(stop),
            Ok(failed) => failed.errors.len() > 0 ==> visit_block(inputs, depth, st, id) == Ok::<
                StateModel,
                Stop,
            >(failed),
        },
{
    lemma_block_prefix(inputs, depth, block.stmts@, states, n, n);
}

proof fn lemma_block_prefix(
    inputs: InputsModel,
    depth: nat,
    stmts: Seq<StmtId>,
    states: Seq<StateModel>,
    n: int,
    k: int,
)
    requires
        statements_run(inputs, depth, stmts, states, n),
        0 <= k <= n,
    ensures
        visit_stmts(inputs, depth, states[0], stmts, 0) == visit_stmts(
            inputs,
            depth,
            states[k],
            stmts,
            k,
        ),
    decreases k,
{
    if k > 0 {
        lemma_block_prefix(inputs, depth, stmts, states, n, k - 1);
        assert(visit_stmt(inputs, depth, states[k - 1], stmts[k - 1]) == Ok::<StateModel, Stop>(
            states[k - 1 + 1],
        ));
    }
}

/// A block that the package does not hold is a fault.
pub proof fn law_missing_block(inputs: InputsModel, depth: nat, st: StateModel, id: BlockId)
    requires
        inputs.store.block(innermost(st).package_id, id) is None,
    ensures
        visit_block(inputs, depth, st, id) == Err::<StateModel, Stop>(
            Stop::Fault(Fault::MissingBlock),
        ),
{
}

/// A pattern that is a name gives that local variable the value of the expression, and fails
/// without one. A pattern that discards changes nothing.
pub proof fn law_simple_patterns(
    inputs: InputsModel,
    depth: nat,
    st: StateModel,
    id: PatId,
    pat: Pat,
    expr: ExprId,
)
    requires
        depth > 0,
        st.context.scopes.len() > 0,
        inputs.store.pat(innermost(st).package_id, id) == Some(pat),
    ensures
        pat.kind is Discard ==> bind_expr_to_pat(inputs, depth, st, id, expr) == Ok::<
            StateModel,
            Stop,
        >(st),
        pat.kind matches PatKind::Bind(ident) ==> {
            &&& innermost(st).expr_values.contains_key(expr) ==> (bind_expr_to_pat(
                inputs,
                depth,
                st,
                id,
                expr,
            ) matches Ok(st1) && sets_local(st, st1, ident.id, innermost(st).expr_values[expr]))
            &&& !innermost(st).expr_values.contains_key(expr) ==> bind_expr_to_pat(
                inputs,
                depth,
                st,
                id,
                expr,
            ) == Err::<StateModel, Stop>(Stop::Fault(Fault::MissingExprValue))
        },
{
}

/// The first `n` expressions are bound to the patterns at their places, one after the other.
pub open spec fn elements_bind(
    inputs: InputsModel,
    depth: nat,
    pats: Seq<PatId>,
    exprs: Seq<ExprId>,
    states: Seq<StateModel>,
    n: int,
) -> bool {
    &&& 0 <= n <= pats.len()
    &&& states.len() == n + 1
    &&& forall|i: int|
        0 <= i < n ==> bind_expr_to_pat(inputs, depth, states[i], #[trigger] pats[i], exprs[i])
            == Ok::<StateModel, Stop>(states[i + 1])
}

/// A tuple pattern binds the elements of a tuple expression of the same length, each to the
/// pattern at its place, in order.
pub proof fn law_tuple_pattern(
    inputs: InputsModel,
    depth: nat,
    st: StateModel,
    id: PatId,
    pat: Pat,
    pats: Vec<PatId>,
    expr_id: ExprId,
    expr: Expr,
    exprs: Vec<ExprId>,
    states: Seq<StateModel>,
    n: int,
)
    requires
        depth > 0,
        inputs.store.pat(innermost(st).package_id, id) == Some(pat),
        pat.kind == PatKind::Tuple(pats),
        inputs.store.expr(innermost(st).package_id, expr_id) == Some(expr),
        expr.kind == ExprKind::Tuple(exprs),
        pats@.len() == exprs@.len(),
        elements_bind(inputs, (depth - 1) as nat, pats@, exprs@, states, n),
        states[0] == st,
    ensures
        n == pats@.len() ==> bind_expr_to_pat(inputs, depth, st, id, expr_id) == Ok::<
            StateModel,
            Stop,
        >(states[n]),
        n < pats@.len() ==> (bind_expr_to_pat(
            inputs,
            (depth - 1) as nat,
            states[n],
            pats@[n],
            exprs@[n],
        ) matches Err(stop) ==> bind_expr_to_pat(inputs, depth, st, id, expr_id) == Err::<
            StateModel,
            Stop,
        >(stop)),
{
    lemma_bind_prefix(inputs, (depth - 1) as nat, pats@, exprs@, states, n, n);
}

proof fn lemma_bind_prefix(
    inputs: InputsModel,
    depth: nat,
    pats: Seq<PatId>,
    exprs: Seq<ExprId>,
    states: Seq<StateModel>,
    n: int,
    k: int,
)
    requires
        elements_bind(inputs, depth, pats, exprs, states, n),
        0 <= k <= n,
    ensures
        bind_exprs_to_pats(inputs, depth, states[0], pats, exprs, 0) == bind_exprs_to_pats(
            inputs,
            depth,
            states[k],
            pats,
            exprs,
            k,
        ),
    decreases k,
{
    if k > 0 {
        lemma_bind_prefix(inputs, depth, pats, exprs, states, n, k - 1);
        assert(bind_expr_to_pat(inputs, depth, states[k - 1], pats[k - 1], exprs[k - 1]) == Ok::<
            StateModel,
            Stop,
        >(states[k - 1 + 1]));
    }
}

/// A pattern is not bound beyond the depth limit or when its package does not hold it. A tuple
/// pattern needs a tuple expression of its length.
pub proof fn law_pattern_faults(
    inputs: InputsModel,
    depth: nat,
    st: StateModel,
    id: PatId,
    expr_id: ExprId,
)
    ensures
        depth == 0 ==> bind_expr_to_pat(inputs, depth, st, id, expr_id) == Err::<StateModel, Stop>(
            Stop::DepthLimit,
        ),
        depth > 0 && inputs.store.pat(innermost(st).package_id, id) is None ==> bind_expr_to_pat(
            inputs,
            depth,
            st,
            id,
            expr_id,
        ) == Err::<StateModel, Stop>(Stop::Fault(Fault::MissingPat)),
        depth > 0 ==> (inputs.store.pat(innermost(st).package_id, id) matches Some(pat) ==> (
        pat.kind matches PatKind::Tuple(pats) ==> match inputs.store.expr(
            innermost(st).package_id,
            expr_id,
        ) {
            None => bind_expr_to_pat(inputs, depth, st, id, expr_id) == Err::<StateModel, Stop>(
                Stop::Fault(Fault::MissingExpr),
            ),
            Some(expr) => {
                &&& !(expr.kind is Tuple) ==> bind_expr_to_pat(inputs, depth, st, id, expr_id)
                    == Err::<StateModel, Stop>(Stop::Fault(Fault::NotATupleExpression))
                &&& expr.kind matches ExprKind::Tuple(exprs) ==> (exprs@.len() != pats@.len()
                    ==> bind_expr_to_pat(inputs, depth, st, id, expr_id) == Err::<
                    StateModel,
                    Stop,
                >(Stop::Fault(Fault::TupleLengthMismatch)))
            },
        })),
{
}

/// The outcome is decided by the entry expression: without an error it is the program generated
/// for it, with a return behind its last instruction; otherwise it is the first error.
pub proof fn law_outcome(
    inputs: InputsModel,
    depth: nat,
    package: PackageId,
    entry: ExprId,
)
    requires
        inputs.store.packages@.contains_key(package as int),
        inputs.store.packages@[package as int].entry == Some(entry),
    ensures
        match visit_expr(inputs, depth, initial_state(package), entry) {
            Err(stop) => evaluate(inputs, depth, package) == OutcomeModel::Stopped(stop),
            Ok(st) => {
                &&& st.errors.len() > 0 ==> evaluate(inputs, depth, package)
                    == OutcomeModel::Failed(st.errors[0])
                &&& st.errors.len() == 0 ==> (evaluate(
                    inputs,
                    depth,
                    package,
                ) matches OutcomeModel::Complete(program) && {
                    &&& program.entry == st.program.entry
                    &&& program.callables == st.program.callables
                    &&& program.blocks.contains_key(st.context.current_block)
                    &&& program.blocks[st.context.current_block] == generated(st).push(
                        InstructionModel::Return,
                    )
                    &&& program.blocks.remove(st.context.current_block) == st.program.blocks.remove(
                        st.context.current_block,
                    )
                })
            },
        },
{
    if let Ok(st) = visit_expr(inputs, depth, initial_state(package), entry) {
        if let OutcomeModel::Complete(program) = evaluate(inputs, depth, package) {
            assert(program.blocks.remove(st.context.current_block) =~= st.program.blocks.remove(
                st.context.current_block,
            ));
        }
    }
}

/// Without the package, and without an entry expression, there is nothing to evaluate.
pub proof fn law_nothing_to_evaluate(inputs: InputsModel, depth: nat, package: PackageId)
    ensures
        !inputs.store.packages@.contains_key(package as int) ==> evaluate(inputs, depth, package)
            == OutcomeModel::Stopped(Stop::Fault(Fault::MissingPackage)),
        inputs.store.packages@.contains_key(package as int)
            && inputs.store.packages@[package as int].entry is None ==> evaluate(
            inputs,
            depth,
            package,
        ) == OutcomeModel::Stopped(Stop::Fault(Fault::NoEntryExpression)),
{
}

} // verus!
