//! What partial evaluation does, as functions from states to states.
//!
//! An evaluation either reaches a next state or stops; the functions below say which. They take
//! a depth, which bounds how deep expressions and patterns may nest.

use crate::classical::{ClassicalReplyModel, ClassicalRequest, ClassicalTarget};
use crate::error::{ErrorModel, Fault, Stop};
use crate::evaluation_context::{ContextModel, ScopeModel};
use crate::fir::{
    BinOp, BlockId, CallableDecl, CallableImpl, ExecGraphId, ExecGraphRange, Expr, ExprId,
    ExprKind, FunctorApp, Global, LocalItemId, PackageId, PackageStore, PatId, PatKind, Res,
    SpecDecl, Specializations, StmtId, StmtKind, StoreItemId,
};
use crate::lowering::{
    bin_op_text, call_operands, intrinsic_callable, lower_type, lower_value, mresetz_model,
    mz_model, read_result_model, spec_decl,
};
use crate::management::ResourcesModel;
use crate::rca::PackageStoreComputeProperties;
use crate::rir::{
    CallableId, CallableModel, CallableType, ConditionCode, InstructionModel, Operand,
    ProgramModel, Ty, Variable,
};
use crate::value::{MeasurementResult, ValueModel};
use vstd::prelude::*;

verus! {

/// What an evaluation reads and never changes.
pub struct InputsModel {
    pub store: PackageStore,
    pub compute_properties: PackageStoreComputeProperties,
    /// The replies of the classical evaluator, in the order of the requests.
    pub replies: Seq<ClassicalReplyModel>,
}

/// The state of an evaluation.
#[verifier::ext_equal]
pub struct StateModel {
    /// The number of replies used so far.
    pub next_reply: nat,
    pub resources: ResourcesModel,
    /// The callables that the program holds already, by name.
    pub callable_ids: Map<Seq<char>, CallableId>,
    pub context: ContextModel,
    pub program: ProgramModel,
    /// The errors so far, in the order in which they were met: inner before outer.
    pub errors: Seq<ErrorModel>,
}

/// A next state with a result, or the reason to stop.
pub type Flow<T> = Result<(StateModel, T), Stop>;

impl StateModel {
    pub open spec fn scope(self) -> ScopeModel {
        self.context.current_scope()
    }

    pub open spec fn package(self) -> PackageId {
        self.scope().package_id
    }

    /// The instructions of the current block.
    pub open spec fn instructions(self) -> Seq<InstructionModel> {
        self.program.blocks[self.context.current_block]
    }

    pub open spec fn emit(self, instruction: InstructionModel) -> StateModel {
        StateModel {
            program: self.program.push_instruction(self.context.current_block, instruction),
            ..self
        }
    }

    pub open spec fn insert_expr_value(self, id: ExprId, value: ValueModel) -> StateModel {
        StateModel {
            context: self.context.with_current_scope(self.scope().insert_expr_value(id, value)),
            ..self
        }
    }

    pub open spec fn insert_local_var(self, id: u32, value: ValueModel) -> StateModel {
        StateModel {
            context: self.context.with_current_scope(self.scope().insert_local_var(id, value)),
            ..self
        }
    }

    pub open spec fn push_error(self, error: ErrorModel) -> StateModel {
        StateModel { errors: self.errors.push(error), ..self }
    }

    pub open spec fn push_call(self, id: StoreItemId, functors: FunctorApp) -> StateModel {
        StateModel { context: self.context.push_call(id.package, id.item, functors), ..self }
    }

    pub open spec fn pop_scope(self) -> StateModel {
        StateModel { context: self.context.pop_scope(), ..self }
    }
}

/// The callable at which the generated program starts.
pub open spec fn entry_callable(block: u32) -> CallableModel {
    CallableModel {
        name: "main"@,
        input_type: Seq::empty(),
        output_type: None,
        body: Some(block),
        call_type: CallableType::Regular,
    }
}

/// The state before anything is evaluated: the program consists of the entry callable and its
/// empty block.
pub open spec fn initial_state(entry_package: PackageId) -> StateModel {
    StateModel {
        next_reply: 0,
        resources: ResourcesModel { next_block: 1, next_callable: 1, ..ResourcesModel::empty() },
        callable_ids: Map::empty(),
        context: ContextModel {
            current_block: 0,
            scopes: seq![ScopeModel::fresh(0, entry_package, None)],
            next_scope: 1,
        },
        program: ProgramModel {
            entry: 0,
            callables: Map::empty().insert(0u32, entry_callable(0)),
            blocks: Map::empty().insert(0u32, Seq::empty()),
        },
        errors: Seq::empty(),
    }
}

/// The specialization that a scope's callable runs.
pub open spec fn running_spec_decl(
    store: PackageStore,
    package: PackageId,
    item: LocalItemId,
    functors: FunctorApp,
) -> Option<SpecDecl> {
    match store.global(StoreItemId { package, item }) {
        Some(Global::Callable(decl)) => match decl.implementation {
            CallableImpl::Spec(specializations) => match spec_decl(specializations, functors) {
                Ok(decl) => Some(decl),
                Err(_) => None,
            },
            CallableImpl::Intrinsic => None,
        },
        _ => None,
    }
}

/// Whether a scope belongs to a package and a specialization that exist.
pub open spec fn scope_resolves(store: PackageStore, scope: ScopeModel) -> bool {
    &&& store.package(scope.package_id) is Some
    &&& scope.callable matches Some((item, functors)) ==> running_spec_decl(
        store,
        scope.package_id,
        item,
        functors,
    ) is Some
}

/// The execution graph of a scope: that of its specialization, or of the package's entry.
pub open spec fn scope_exec_graph(store: PackageStore, scope: ScopeModel) -> ExecGraphId {
    match scope.callable {
        Some((item, functors)) => running_spec_decl(
            store,
            scope.package_id,
            item,
            functors,
        )->Some_0.exec_graph,
        None => store.package(scope.package_id)->Some_0.entry_exec_graph,
    }
}

/// The callable in the program that has the name of `callable`; `callable` itself is added under
/// a new identifier when there is none.
pub open spec fn get_or_insert_callable(st: StateModel, callable: CallableModel) -> Flow<
    CallableId,
> {
    if st.callable_ids.contains_key(callable.name) {
        Ok((st, st.callable_ids[callable.name]))
    } else if st.resources.next_callable < u32::MAX {
        let id = st.resources.next_callable;
        Ok(
            (
                StateModel {
                    resources: ResourcesModel { next_callable: (id + 1) as u32, ..st.resources },
                    callable_ids: st.callable_ids.insert(callable.name, id),
                    program: ProgramModel {
                        callables: st.program.callables.insert(id, callable),
                        ..st.program
                    },
                    ..st
                },
                id,
            ),
        )
    } else {
        Err(Stop::Fault(Fault::IdentifiersExhausted))
    }
}

/// A variable that no instruction has defined.
pub open spec fn next_var(st: StateModel, ty: Ty) -> Flow<Variable> {
    if st.resources.next_var < u32::MAX {
        let variable_id = st.resources.next_var;
        Ok(
            (
                StateModel {
                    resources: ResourcesModel {
                        next_var: (variable_id + 1) as u32,
                        ..st.resources
                    },
                    ..st
                },
                Variable { variable_id, ty },
            ),
        )
    } else {
        Err(Stop::Fault(Fault::IdentifiersExhausted))
    }
}

/// A measurement result as a Boolean operand: a known result is a literal; any other one is read
/// into a new variable.
pub open spec fn eval_result_as_bool_operand(st: StateModel, result: MeasurementResult) -> Flow<
    Operand,
> {
    match result {
        MeasurementResult::Val(_) => match lower_value(ValueModel::Result(result)) {
            Ok(operand) => Ok((st, operand)),
            Err(fault) => Err(Stop::Fault(fault)),
        },
        MeasurementResult::Id(_) => match lower_value(ValueModel::Result(result)) {
            Err(fault) => Err(Stop::Fault(fault)),
            Ok(literal) => match get_or_insert_callable(st, read_result_model()) {
                Err(stop) => Err(stop),
                Ok((st1, callable)) => match next_var(st1, Ty::Boolean) {
                    Err(stop) => Err(stop),
                    Ok((st2, variable)) => Ok(
                        (
                            st2.emit(
                                InstructionModel::Call(callable, seq![literal], Some(variable)),
                            ),
                            Operand::Variable(variable),
                        ),
                    ),
                },
            },
        },
    }
}

/// An operand of a comparison.
pub open spec fn comparison_operand(st: StateModel, value: ValueModel) -> Flow<Operand> {
    match value {
        ValueModel::Result(result) => eval_result_as_bool_operand(st, result),
        _ => match lower_value(value) {
            Ok(operand) => Ok((st, operand)),
            Err(fault) => Err(Stop::Fault(fault)),
        },
    }
}

/// The condition under which a comparison operator yields true.
pub open spec fn condition_code(op: BinOp) -> Option<ConditionCode> {
    match op {
        BinOp::Eq => Some(ConditionCode::Eq),
        BinOp::Neq => Some(ConditionCode::Ne),
        _ => None,
    }
}

/// Applies a binary operator to the values of its operands: equality and inequality become a
/// comparison into a new variable.
pub open spec fn apply_bin_op(
    st: StateModel,
    expr: Expr,
    op: BinOp,
    lhs: ValueModel,
    rhs: ValueModel,
) -> Flow<Result<ValueModel, ErrorModel>> {
    match comparison_operand(st, lhs) {
        Err(stop) => Err(stop),
        Ok((st1, lhs_operand)) => match comparison_operand(st1, rhs) {
            Err(stop) => Err(stop),
            Ok((st2, rhs_operand)) => match lower_type(expr.ty) {
                Err(fault) => Err(Stop::Fault(fault)),
                Ok(ty) => match next_var(st2, ty) {
                    Err(stop) => Err(stop),
                    Ok((st3, variable)) => match condition_code(op) {
                        Some(code) => Ok(
                            (
                                st3.emit(
                                    InstructionModel::Icmp(
                                        code,
                                        lhs_operand,
                                        rhs_operand,
                                        variable,
                                    ),
                                ),
                                Ok(ValueModel::variable(variable.variable_id)),
                            ),
                        ),
                        None => Ok(
                            (st3, Err(ErrorModel::Unimplemented(bin_op_text(op), expr.span))),
                        ),
                    },
                },
            },
        },
    }
}

/// Takes the first qubit not in use.
pub open spec fn allocate_qubit(st: StateModel) -> Flow<ValueModel> {
    Ok(
        (
            StateModel { resources: st.resources.allocate_qubit(), ..st },
            ValueModel::Qubit(crate::value::Qubit(st.resources.free_qubit() as usize)),
        ),
    )
}

/// Gives a qubit back.
pub open spec fn release_qubit(st: StateModel, args: ValueModel) -> Flow<ValueModel> {
    match args {
        ValueModel::Qubit(qubit) => if qubit.0 < st.resources.qubits_in_use.len() {
            Ok(
                (
                    StateModel { resources: st.resources.release_qubit(qubit.0 as int), ..st },
                    ValueModel::unit(),
                ),
            )
        } else {
            Err(Stop::Fault(Fault::ReleasedUnknownQubit))
        },
        _ => Err(Stop::Fault(Fault::ReleasedNotAQubit)),
    }
}

/// Calls a measurement on a qubit and a new result, and gives that result.
pub open spec fn measure_qubit(
    st: StateModel,
    callable: CallableModel,
    args: ValueModel,
) -> Flow<ValueModel> {
    match args {
        ValueModel::Qubit(_) => match lower_value(args) {
            Err(fault) => Err(Stop::Fault(fault)),
            Ok(qubit_operand) => if st.resources.next_result < usize::MAX {
                let id = st.resources.next_result;
                let result = ValueModel::Result(MeasurementResult::Id(id));
                let st1 = StateModel {
                    resources: ResourcesModel { next_result: (id + 1) as usize, ..st.resources },
                    ..st
                };
                match lower_value(result) {
                    Err(fault) => Err(Stop::Fault(fault)),
                    Ok(result_operand) => match get_or_insert_callable(st1, callable) {
                        Err(stop) => Err(stop),
                        Ok((st2, callable_id)) => Ok(
                            (
                                st2.emit(
                                    InstructionModel::Call(
                                        callable_id,
                                        seq![qubit_operand, result_operand],
                                        None,
                                    ),
                                ),
                                result,
                            ),
                        ),
                    },
                }
            } else {
                Err(Stop::Fault(Fault::IdentifiersExhausted))
            },
        },
        _ => Err(Stop::Fault(Fault::MeasuredNotAQubit)),
    }
}

/// Calls an intrinsic of the same name in the generated program; such calls have no output.
pub open spec fn call_intrinsic_qis(
    st: StateModel,
    decl: CallableDecl,
    args: ValueModel,
) -> Flow<ValueModel> {
    match intrinsic_callable(decl) {
        Err(fault) => Err(Stop::Fault(fault)),
        Ok(callable) => match get_or_insert_callable(st, callable) {
            Err(stop) => Err(stop),
            Ok((st1, callable_id)) => match call_operands(args) {
                Err(fault) => Err(Stop::Fault(fault)),
                Ok(operands) => Ok(
                    (
                        st1.emit(InstructionModel::Call(callable_id, operands, None)),
                        ValueModel::unit(),
                    ),
                ),
            },
        },
    }
}

/// Calls an intrinsic. Qubit allocation, qubit release and the two measurements are told by
/// their names; every other intrinsic is called as it is.
pub open spec fn call_intrinsic(
    st: StateModel,
    decl: CallableDecl,
    args: ValueModel,
) -> Flow<ValueModel> {
    let name = decl.name.name@;
    if name == "__quantum__rt__qubit_allocate"@ {
        allocate_qubit(st)
    } else if name == "__quantum__rt__qubit_release"@ {
        release_qubit(st, args)
    } else if name == "__quantum__qis__m__body"@ {
        measure_qubit(st, mz_model(), args)
    } else if name == "__quantum__qis__mresetz__body"@ {
        measure_qubit(st, mresetz_model(), args)
    } else {
        call_intrinsic_qis(st, decl, args)
    }
}

/// What the classical evaluator is asked in a state.
pub open spec fn classical_request(
    inputs: InputsModel,
    st: StateModel,
    target: ClassicalTarget,
    range: ExecGraphRange,
) -> ClassicalRequest {
    ClassicalRequest {
        scope: st.scope().id,
        package: st.package(),
        exec_graph: scope_exec_graph(inputs.store, st.scope()),
        range,
        target,
    }
}

/// Uses the next reply as the answer to a request, or stops on the request when none is left.
pub open spec fn take_reply(inputs: InputsModel, st: StateModel, request: ClassicalRequest) -> Flow<
    ClassicalReplyModel,
> {
    if st.next_reply < inputs.replies.len() {
        Ok(
            (
                StateModel { next_reply: st.next_reply + 1, ..st },
                inputs.replies[st.next_reply as int],
            ),
        )
    } else {
        Err(Stop::Pending(request))
    }
}

/// Has the classical evaluator compute the value of an expression.
pub open spec fn eval_classical_expr(
    inputs: InputsModel,
    st: StateModel,
    id: ExprId,
    expr: Expr,
) -> Flow<Result<ValueModel, ErrorModel>> {
    let request = classical_request(
        inputs,
        st,
        ClassicalTarget::Expr(id),
        expr.exec_graph_range,
    );
    match take_reply(inputs, st, request) {
        Err(stop) => Err(stop),
        Ok((st1, ClassicalReplyModel::Returned(value))) => Ok((st1, Ok(value))),
        Ok((st1, ClassicalReplyModel::Failed(error))) => Ok(
            (st1, Err(ErrorModel::EvaluationFailed(error))),
        ),
        Ok((_, ClassicalReplyModel::Interrupted)) => Err(Stop::Fault(Fault::NoValueReturned)),
    }
}

/// Has the classical evaluator run a statement.
pub open spec fn eval_classical_stmt(inputs: InputsModel, st: StateModel, id: StmtId) -> Result<
    StateModel,
    Stop,
> {
    match inputs.store.stmt(st.package(), id) {
        None => Err(Stop::Fault(Fault::MissingStmt)),
        Some(stmt) => {
            let request = classical_request(
                inputs,
                st,
                ClassicalTarget::Stmt(id),
                stmt.exec_graph_range,
            );
            match take_reply(inputs, st, request) {
                Err(stop) => Err(stop),
                Ok((st1, ClassicalReplyModel::Failed(error))) => Ok(
                    st1.push_error(ErrorModel::EvaluationFailed(error)),
                ),
                Ok((st1, _)) => Ok(st1),
            }
        },
    }
}

/// What a resolved name stands for: a global item without functors, or the value of a local
/// variable.
pub open spec fn eval_var(st: StateModel, res: Res) -> Result<ValueModel, Fault> {
    match res {
        Res::Unresolved => Err(Fault::UnresolvedName),
        Res::Item(item) => Ok(
            ValueModel::Global(
                StoreItemId {
                    package: match item.package {
                        Some(package) => package,
                        None => st.package(),
                    },
                    item: item.item,
                },
                FunctorApp::none(),
            ),
        ),
        Res::Local(id) => if st.scope().local_vars.contains_key(id) {
            Ok(st.scope().local_vars[id])
        } else {
            Err(Fault::MissingLocalVar)
        },
    }
}

/// The kinds of expressions for which no instructions are ever generated.
pub open spec fn invalid_kind(kind: ExprKind) -> Option<Fault> {
    match kind {
        ExprKind::Closure => Some(Fault::ClosureExpression),
        ExprKind::Fail => Some(Fault::FailExpression),
        ExprKind::Hole => Some(Fault::HoleExpression),
        ExprKind::Lit => Some(Fault::LiteralExpression),
        ExprKind::Range => Some(Fault::RangeExpression),
        ExprKind::String => Some(Fault::StringExpression),
        _ => None,
    }
}

/// How the kinds of expressions that are not implemented yet are described.
pub open spec fn unimplemented_kind(kind: ExprKind) -> Seq<char> {
    match kind {
        ExprKind::Array => "Array Expr"@,
        ExprKind::ArrayLit => "Array Lit"@,
        ExprKind::ArrayRepeat => "Array Repeat"@,
        ExprKind::Assign => "Assignment Expr"@,
        ExprKind::AssignField => "Field Assignment Expr"@,
        ExprKind::AssignIndex => "Assignment Index Expr"@,
        ExprKind::AssignOp => "Assignment Op Expr"@,
        ExprKind::Block => "Block Expr"@,
        ExprKind::Field => "Field Expr"@,
        ExprKind::If => "If Expr"@,
        ExprKind::Index => "Index Expr"@,
        ExprKind::Return => "Return Expr"@,
        ExprKind::UnOp => "Unary Expr"@,
        ExprKind::UpdateField => "Updated Field Expr"@,
        ExprKind::UpdateIndex => "Update Index Expr"@,
        ExprKind::While => "While Expr"@,
        _ => Seq::empty(),
    }
}

/// Evaluates an expression and records its value in the current scope, or the error that it
/// met.
pub open spec fn visit_expr(inputs: InputsModel, depth: nat, st: StateModel, id: ExprId) -> Result<
    StateModel,
    Stop,
>
    decreases depth, 0int, 0int,
{
    if depth == 0 {
        Err(Stop::DepthLimit)
    } else {
        match inputs.compute_properties.expr(st.package(), id) {
            None => Err(Stop::Fault(Fault::MissingComputeKind)),
            Some(kind) => match inputs.store.expr(st.package(), id) {
                None => Err(Stop::Fault(Fault::MissingExpr)),
                Some(expr) => {
                    let flow = if kind is Classical {
                        eval_classical_expr(inputs, st, id, expr)
                    } else {
                        eval_expr(inputs, (depth - 1) as nat, st, expr)
                    };
                    match flow {
                        Err(stop) => Err(stop),
                        Ok((st1, Ok(value))) => Ok(st1.insert_expr_value(id, value)),
                        Ok((st1, Err(error))) => Ok(st1.push_error(error)),
                    }
                },
            },
        }
    }
}

/// Evaluates an expression and gives its value, or `None` when it met an error.
pub open spec fn try_eval_expr(
    inputs: InputsModel,
    depth: nat,
    st: StateModel,
    id: ExprId,
) -> Flow<Option<ValueModel>>
    decreases depth, 1int, 0int,
{
    match visit_expr(inputs, depth, st, id) {
        Err(stop) => Err(stop),
        Ok(st1) => if st1.errors.len() == 0 {
            Ok((st1, Some(st1.scope().expr_values[id])))
        } else {
            Ok((st1, None))
        },
    }
}

/// Generates instructions for an expression.
pub open spec fn eval_expr(inputs: InputsModel, depth: nat, st: StateModel, expr: Expr) -> Flow<
    Result<ValueModel, ErrorModel>,
>
    decreases depth, 6int, 0int,
{
    match expr.kind {
        ExprKind::BinOp(op, lhs, rhs) => eval_bin_op(inputs, depth, st, expr, op, lhs, rhs),
        ExprKind::Call(callee, args) => eval_call(inputs, depth, st, callee, args),
        ExprKind::Tuple(exprs) => eval_tuple(inputs, depth, st, exprs@, 0, Seq::empty()),
        ExprKind::Var(res) => match eval_var(st, res) {
            Ok(value) => Ok((st, Ok(value))),
            Err(fault) => Err(Stop::Fault(fault)),
        },
        kind => match invalid_kind(kind) {
            Some(fault) => Err(Stop::Fault(fault)),
            None => Ok(
                (st, Err(ErrorModel::Unimplemented(unimplemented_kind(kind), expr.span))),
            ),
        },
    }
}

/// The span of an expression of the current package.
pub open spec fn expr_span(inputs: InputsModel, st: StateModel, id: ExprId) -> crate::fir::Span {
    inputs.store.expr(st.package(), id)->Some_0.span
}

/// Evaluates a binary expression: the left operand, the right operand, then the operator.
pub open spec fn eval_bin_op(
    inputs: InputsModel,
    depth: nat,
    st: StateModel,
    expr: Expr,
    op: BinOp,
    lhs: ExprId,
    rhs: ExprId,
) -> Flow<Result<ValueModel, ErrorModel>>
    decreases depth, 5int, 0int,
{
    match try_eval_expr(inputs, depth, st, lhs) {
        Err(stop) => Err(stop),
        Ok((st1, None)) => Ok(
            (
                st1,
                Err(
                    ErrorModel::FailedToEvaluateBinaryExpressionOperand(
                        expr_span(inputs, st1, lhs),
                    ),
                ),
            ),
        ),
        Ok((st1, Some(lhs_value))) => match try_eval_expr(inputs, depth, st1, rhs) {
            Err(stop) => Err(stop),
            Ok((st2, None)) => Ok(
                (
                    st2,
                    Err(
                        ErrorModel::FailedToEvaluateBinaryExpressionOperand(
                            expr_span(inputs, st2, rhs),
                        ),
                    ),
                ),
            ),
            Ok((st2, Some(rhs_value))) => apply_bin_op(st2, expr, op, lhs_value, rhs_value),
        },
    }
}

/// Evaluates a call: the callee, the argument, then the callable.
pub open spec fn eval_call(
    inputs: InputsModel,
    depth: nat,
    st: StateModel,
    callee: ExprId,
    args: ExprId,
) -> Flow<Result<ValueModel, ErrorModel>>
    decreases depth, 5int, 0int,
{
    match try_eval_expr(inputs, depth, st, callee) {
        Err(stop) => Err(stop),
        Ok((st1, None)) => Ok(
            (
                st1,
                Err(ErrorModel::FailedToEvaluateCalleeExpression(expr_span(inputs, st1, callee))),
            ),
        ),
        Ok((st1, Some(callable_value))) => match try_eval_expr(inputs, depth, st1, args) {
            Err(stop) => Err(stop),
            Ok((st2, None)) => Ok(
                (
                    st2,
                    Err(ErrorModel::FailedToEvaluateCalleeExpression(expr_span(inputs, st2, args))),
                ),
            ),
            Ok((st2, Some(args_value))) => match callable_value {
                ValueModel::Global(id, functors) => match inputs.store.global(id) {
                    None => Err(Stop::Fault(Fault::MissingGlobal)),
                    Some(Global::Udt) => Err(Stop::Fault(Fault::GlobalNotCallable)),
                    Some(Global::Callable(decl)) => match decl.implementation {
                        CallableImpl::Intrinsic => match call_intrinsic(st2, decl, args_value) {
                            Err(stop) => Err(stop),
                            Ok((st3, value)) => Ok((st3, Ok(value))),
                        },
                        CallableImpl::Spec(specializations) => call_spec(
                            inputs,
                            depth,
                            st2,
                            id,
                            functors,
                            decl,
                            specializations,
                        ),
                    },
                },
                _ => Err(Stop::Fault(Fault::CalleeNotGlobal)),
            },
        },
    }
}

/// Runs the block of a specialization in a scope of its own. Its value is unit.
pub open spec fn call_spec(
    inputs: InputsModel,
    depth: nat,
    st: StateModel,
    id: StoreItemId,
    functors: FunctorApp,
    decl: CallableDecl,
    specializations: Specializations,
) -> Flow<Result<ValueModel, ErrorModel>>
    decreases depth, 4int, 0int,
{
    match spec_decl(specializations, functors) {
        Err(fault) => Err(Stop::Fault(fault)),
        Ok(running) => if st.context.next_scope == usize::MAX {
            Err(Stop::Fault(Fault::IdentifiersExhausted))
        } else {
            match visit_block(inputs, depth, st.push_call(id, functors), running.block) {
                Err(stop) => Err(stop),
                Ok(st1) => {
                    let st2 = st1.pop_scope();
                    if st2.errors.len() == 0 {
                        Ok((st2, Ok(ValueModel::unit())))
                    } else {
                        Ok(
                            (
                                st2,
                                Err(
                                    ErrorModel::FailedToEvaluateCallable(
                                        decl.name.name@,
                                        decl.name.span,
                                    ),
                                ),
                            ),
                        )
                    }
                },
            }
        },
    }
}

/// Evaluates the elements of a tuple from index `i` on; `values` holds those before.
pub open spec fn eval_tuple(
    inputs: InputsModel,
    depth: nat,
    st: StateModel,
    exprs: Seq<ExprId>,
    i: int,
    values: Seq<ValueModel>,
) -> Flow<Result<ValueModel, ErrorModel>>
    decreases depth, 2int, exprs.len() - i,
{
    if 0 <= i < exprs.len() {
        match try_eval_expr(inputs, depth, st, exprs[i]) {
            Err(stop) => Err(stop),
            Ok((st1, None)) => Ok(
                (
                    st1,
                    Err(
                        ErrorModel::FailedToEvaluateTupleElementExpression(
                            expr_span(inputs, st1, exprs[i]),
                        ),
                    ),
                ),
            ),
            Ok((st1, Some(value))) => eval_tuple(
                inputs,
                depth,
                st1,
                exprs,
                i + 1,
                values.push(value),
            ),
        }
    } else {
        Ok((st, Ok(ValueModel::Tuple(values))))
    }
}

/// Runs the statements of a block.
pub open spec fn visit_block(
    inputs: InputsModel,
    depth: nat,
    st: StateModel,
    block: BlockId,
) -> Result<StateModel, Stop>
    decreases depth, 3int, 0int,
{
    match inputs.store.block(st.package(), block) {
        None => Err(Stop::Fault(Fault::MissingBlock)),
        Some(block) => visit_stmts(inputs, depth, st, block.stmts@, 0),
    }
}

/// Runs the statements from index `i` on, up to the first that meets an error.
pub open spec fn visit_stmts(
    inputs: InputsModel,
    depth: nat,
    st: StateModel,
    stmts: Seq<StmtId>,
    i: int,
) -> Result<StateModel, Stop>
    decreases depth, 2int, stmts.len() - i,
{
    if 0 <= i < stmts.len() {
        match visit_stmt(inputs, depth, st, stmts[i]) {
            Err(stop) => Err(stop),
            Ok(st1) => if st1.errors.len() == 0 {
                visit_stmts(inputs, depth, st1, stmts, i + 1)
            } else {
                Ok(st1)
            },
        }
    } else {
        Ok(st)
    }
}

/// Runs a statement: a classical one in the classical evaluator, any other one by generating
/// instructions.
pub open spec fn visit_stmt(
    inputs: InputsModel,
    depth: nat,
    st: StateModel,
    id: StmtId,
) -> Result<StateModel, Stop>
    decreases depth, 1int, 0int,
{
    match inputs.compute_properties.stmt(st.package(), id) {
        None => Err(Stop::Fault(Fault::MissingComputeKind)),
        Some(kind) => if kind is Classical {
            eval_classical_stmt(inputs, st, id)
        } else {
            match inputs.store.stmt(st.package(), id) {
                None => Err(Stop::Fault(Fault::MissingStmt)),
                Some(stmt) => match stmt.kind {
                    StmtKind::Expr(expr) => visit_expr(inputs, depth, st, expr),
                    StmtKind::Semi(expr) => visit_expr(inputs, depth, st, expr),
                    StmtKind::Local(pat, expr) => match visit_expr(inputs, depth, st, expr) {
                        Err(stop) => Err(stop),
                        Ok(st1) => bind_expr_to_pat(inputs, depth, st1, pat, expr),
                    },
                    StmtKind::Item(_) => Ok(st),
                },
            }
        },
    }
}

/// Binds the value of an expression to a pattern. A tuple pattern is bound element by element to
/// a tuple expression.
pub open spec fn bind_expr_to_pat(
    inputs: InputsModel,
    depth: nat,
    st: StateModel,
    pat: PatId,
    expr: ExprId,
) -> Result<StateModel, Stop>
    decreases depth, 0int, 0int,
{
    if depth == 0 {
        Err(Stop::DepthLimit)
    } else {
        match inputs.store.pat(st.package(), pat) {
            None => Err(Stop::Fault(Fault::MissingPat)),
            Some(pat) => match pat.kind {
                PatKind::Discard => Ok(st),
                PatKind::Bind(ident) => if st.scope().expr_values.contains_key(expr) {
                    Ok(st.insert_local_var(ident.id, st.scope().expr_values[expr]))
                } else {
                    Err(Stop::Fault(Fault::MissingExprValue))
                },
                PatKind::Tuple(pats) => match inputs.store.expr(st.package(), expr) {
                    None => Err(Stop::Fault(Fault::MissingExpr)),
                    Some(expr) => match expr.kind {
                        ExprKind::Tuple(exprs) => if pats@.len() == exprs@.len() {
                            bind_exprs_to_pats(
                                inputs,
                                (depth - 1) as nat,
                                st,
                                pats@,
                                exprs@,
                                0,
                            )
                        } else {
                            Err(Stop::Fault(Fault::TupleLengthMismatch))
                        },
                        _ => Err(Stop::Fault(Fault::NotATupleExpression)),
                    },
                },
            },
        }
    }
}

/// Binds expressions to patterns pairwise from index `i` on.
pub open spec fn bind_exprs_to_pats(
    inputs: InputsModel,
    depth: nat,
    st: StateModel,
    pats: Seq<PatId>,
    exprs: Seq<ExprId>,
    i: int,
) -> Result<StateModel, Stop>
    decreases depth, 1int, pats.len() - i,
{
    if 0 <= i < pats.len() {
        match bind_expr_to_pat(inputs, depth, st, pats[i], exprs[i]) {
            Err(stop) => Err(stop),
            Ok(st1) => bind_exprs_to_pats(inputs, depth, st1, pats, exprs, i + 1),
        }
    } else {
        Ok(st)
    }
}

/// How a whole evaluation ends.
pub enum OutcomeModel {
    /// The generated program.
    Complete(ProgramModel),
    /// The first error.
    Failed(ErrorModel),
    Stopped(Stop),
}

/// Evaluates the entry expression of a package. The program that results ends its entry block
/// with a return; when errors were met, the outcome is the first of them.
pub open spec fn evaluate(inputs: InputsModel, depth: nat, package: PackageId) -> OutcomeModel {
    match inputs.store.package(package) {
        None => OutcomeModel::Stopped(Stop::Fault(Fault::MissingPackage)),
        Some(entry_package) => match entry_package.entry {
            None => OutcomeModel::Stopped(Stop::Fault(Fault::NoEntryExpression)),
            Some(entry) => match visit_expr(inputs, depth, initial_state(package), entry) {
                Err(stop) => OutcomeModel::Stopped(stop),
                Ok(st) => if st.errors.len() > 0 {
                    OutcomeModel::Failed(st.errors[0])
                } else {
                    OutcomeModel::Complete(st.emit(InstructionModel::Return).program)
                },
            },
        },
    }
}

} // verus!
