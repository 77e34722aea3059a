//! The invariant of evaluation states, and what evaluation leaves as it was.

use crate::evaluation_context::{ContextModel, ScopeModel};
use crate::fir::{
    BinOp, BlockId, CallableDecl, CallableImpl, Expr, ExprId, ExprKind, FunctorApp, Global, PatId,
    PatKind, Specializations, StmtId, StmtKind, StoreItemId,
};
use crate::lowering::{
    call_operands, intrinsic_callable, lower_value, lower_values, mresetz_model, mz_model,
    read_result_model, spec_decl,
};
use crate::rir::{
    CallableId, CallableModel, InstructionModel, Literal, Operand, Ty, Variable, VariableId,
};
use crate::semantics::{
    apply_bin_op, bind_expr_to_pat, bind_exprs_to_pats, call_intrinsic, call_intrinsic_qis,
    call_spec, comparison_operand, entry_callable, eval_bin_op, eval_call, eval_classical_expr,
    eval_expr, eval_result_as_bool_operand, eval_tuple, get_or_insert_callable, initial_state,
    measure_qubit, next_var, running_spec_decl, scope_resolves, try_eval_expr, visit_block,
    visit_expr, visit_stmt, visit_stmts, InputsModel, StateModel,
};
use crate::value::{MeasurementResult, ValueModel};
use vstd::prelude::*;

verus! {

/// The variable that an instruction gives its value.
pub open spec fn definition(instruction: InstructionModel) -> Option<Variable> {
    match instruction {
        InstructionModel::Call(_, _, output) => output,
        InstructionModel::Icmp(_, _, _, output) => Some(output),
        InstructionModel::Return => None,
    }
}

/// The operands that an instruction reads.
pub open spec fn operands(instruction: InstructionModel) -> Seq<Operand> {
    match instruction {
        InstructionModel::Call(_, args, _) => args,
        InstructionModel::Icmp(_, lhs, rhs, _) => seq![lhs, rhs],
        InstructionModel::Return => Seq::empty(),
    }
}

/// Whether one of the first `end` instructions defines a variable.
pub open spec fn defined_before(
    instructions: Seq<InstructionModel>,
    end: int,
    variable: Variable,
) -> bool {
    exists|j: int|
        0 <= j < end && definition(#[trigger] instructions[j]) == Some(variable)
}

/// Whether an operand is a literal, or a variable that one of the first `end` instructions
/// defines.
pub open spec fn operand_ready(
    instructions: Seq<InstructionModel>,
    end: int,
    operand: Operand,
) -> bool {
    operand matches Operand::Variable(variable) ==> defined_before(instructions, end, variable)
}

/// Whether an operand names a measurement result.
pub open spec fn names_result(operand: Operand) -> bool {
    operand matches Operand::Literal(Literal::Result(_))
}

/// Whether an instruction calls the given callable.
pub open spec fn calls(instruction: InstructionModel, callable: CallableId) -> bool {
    instruction matches InstructionModel::Call(id, _, _) && id == callable
}

/// Whether an instruction has one of the shapes that are generated: a call of a callable that
/// exists and has no body, where the call either has no output or reads one measurement result
/// into a Boolean variable; or a comparison of anything but measurement results.
pub open spec fn shape_valid(
    instruction: InstructionModel,
    callables: Map<CallableId, CallableModel>,
) -> bool {
    match instruction {
        InstructionModel::Call(id, args, output) => {
            &&& callables.contains_key(id)
            &&& callables[id].body is None
            &&& output matches Some(variable) ==> {
                &&& callables[id].name == read_result_model().name
                &&& variable.ty == Ty::Boolean
                &&& args.len() == 1
                &&& names_result(args[0])
            }
        },
        InstructionModel::Icmp(_, lhs, rhs, _) => !names_result(lhs) && !names_result(rhs),
        InstructionModel::Return => false,
    }
}

/// Whether the instruction at index `i` has a valid shape, reads only what is defined before it,
/// and defines a variable below the bound, if any.
pub open spec fn instruction_valid(
    instructions: Seq<InstructionModel>,
    i: int,
    callables: Map<CallableId, CallableModel>,
    var_bound: VariableId,
) -> bool {
    &&& shape_valid(instructions[i], callables)
    &&& definition(instructions[i]) matches Some(variable) ==> variable.variable_id < var_bound
    &&& forall|k: int|
        0 <= k < operands(instructions[i]).len() ==> operand_ready(
            instructions,
            i,
            #[trigger] operands(instructions[i])[k],
        )
}

/// Whether a block is in single-assignment form over the given callables: each instruction is
/// valid where it stands, and the variables that are defined increase.
pub open spec fn block_valid(
    instructions: Seq<InstructionModel>,
    callables: Map<CallableId, CallableModel>,
    var_bound: VariableId,
) -> bool {
    &&& forall|i: int|
        0 <= i < instructions.len() ==> #[trigger] instruction_valid(
            instructions,
            i,
            callables,
            var_bound,
        )
    &&& forall|i: int, j: int|
        #![trigger instructions[i], instructions[j]]
        0 <= i < j < instructions.len() && definition(instructions[i]) is Some && definition(
            instructions[j],
        ) is Some ==> definition(instructions[i])->Some_0.variable_id < definition(
            instructions[j],
        )->Some_0.variable_id
}

/// Whether the callables of a program are its entry callable and those in the table of names,
/// which tells them apart. Only the entry callable has a body.
pub open spec fn callables_valid(st: StateModel) -> bool {
    let callables = st.program.callables;
    &&& callables.contains_key(st.program.entry)
    &&& callables[st.program.entry] == entry_callable(st.context.current_block)
    &&& forall|name: Seq<char>| #[trigger]
        st.callable_ids.contains_key(name) ==> {
            let id = st.callable_ids[name];
            id != st.program.entry && callables.contains_key(id) && callables[id].name == name
        }
    &&& forall|id: CallableId| #[trigger]
        callables.contains_key(id) ==> {
            &&& id < st.resources.next_callable
            &&& id != st.program.entry ==> {
                &&& callables[id].body is None
                &&& st.callable_ids.contains_key(callables[id].name)
                &&& st.callable_ids[callables[id].name] == id
            }
        }
}

/// Whether the calls on the stack have identifiers that were handed out, the inner ones later.
pub open spec fn scopes_valid(context: ContextModel) -> bool {
    &&& forall|i: int|
        0 <= i < context.scopes.len() ==> (#[trigger] context.scopes[i]).id < context.next_scope
    &&& forall|i: int, j: int|
        0 <= i < j < context.scopes.len() ==> (#[trigger] context.scopes[i]).id < (
        #[trigger] context.scopes[j]).id
}

/// The invariant of evaluation states.
pub open spec fn state_valid(inputs: InputsModel, st: StateModel) -> bool {
    &&& st.context.scopes.len() > 0
    &&& forall|i: int|
        0 <= i < st.context.scopes.len() ==> scope_resolves(
            inputs.store,
            #[trigger] st.context.scopes[i],
        )
    &&& scopes_valid(st.context)
    &&& forall|block: u32| #[trigger]
        st.program.blocks.contains_key(block) <==> block == st.context.current_block
    &&& callables_valid(st)
    &&& block_valid(st.instructions(), st.program.callables, st.resources.next_var)
}

/// Whether two scopes belong to the same call.
pub open spec fn same_call(a: ScopeModel, b: ScopeModel) -> bool {
    a.id == b.id && a.package_id == b.package_id && a.callable == b.callable
}

/// What evaluation from `before` to `after` leaves as it was: the calls below the current one
/// are untouched and the current one is still running; instructions, callables and errors are
/// only added; identifiers and replies are only used up.
pub open spec fn continues(before: StateModel, after: StateModel) -> bool {
    &&& before.context.scopes.len() > 0
    &&& after.context.scopes.len() == before.context.scopes.len()
    &&& forall|i: int|
        0 <= i < before.context.scopes.len() - 1 ==> #[trigger] after.context.scopes[i]
            == before.context.scopes[i]
    &&& same_call(before.scope(), after.scope())
    &&& after.context.current_block == before.context.current_block
    &&& before.instructions().is_prefix_of(after.instructions())
    &&& after.program.entry == before.program.entry
    &&& before.program.callables.submap_of(after.program.callables)
    &&& before.callable_ids.submap_of(after.callable_ids)
    &&& before.errors.is_prefix_of(after.errors)
    &&& before.next_reply <= after.next_reply
    &&& before.context.next_scope <= after.context.next_scope
    &&& before.resources.next_callable <= after.resources.next_callable
    &&& before.resources.next_result <= after.resources.next_result
    &&& before.resources.next_var <= after.resources.next_var
}

/// A valid state that continues another one.
pub open spec fn advances(inputs: InputsModel, before: StateModel, after: StateModel) -> bool {
    state_valid(inputs, after) && continues(before, after)
}

pub proof fn lemma_continues_trans(a: StateModel, b: StateModel, c: StateModel)
    requires
        continues(a, b),
        continues(b, c),
    ensures
        continues(a, c),
{
    assert forall|i: int| 0 <= i < a.context.scopes.len() - 1 implies #[trigger] c.context.scopes[i]
        == a.context.scopes[i] by {
        assert(b.context.scopes[i] == a.context.scopes[i]);
    }
    lemma_prefix_trans(a.instructions(), b.instructions(), c.instructions());
    lemma_prefix_trans(a.errors, b.errors, c.errors);
    vstd::map_lib::lemma_submap_of_trans(
        a.program.callables,
        b.program.callables,
        c.program.callables,
    );
    vstd::map_lib::lemma_submap_of_trans(a.callable_ids, b.callable_ids, c.callable_ids);
}

proof fn lemma_prefix_trans<T>(a: Seq<T>, b: Seq<T>, c: Seq<T>)
    requires
        a.is_prefix_of(b),
        b.is_prefix_of(c),
    ensures
        a.is_prefix_of(c),
{
    assert forall|i: int| 0 <= i < a.len() implies a[i] == c[i] by {
        assert(a[i] == b[i]);
        assert(b[i] == c[i]);
    }
    assert(a =~= c.subrange(0, a.len() as int));
}

/// A variable that is defined stays defined.
proof fn lemma_ready_grows(
    before: Seq<InstructionModel>,
    after: Seq<InstructionModel>,
    operand: Operand,
)
    requires
        before.is_prefix_of(after),
        operand_ready(before, before.len() as int, operand),
    ensures
        operand_ready(after, after.len() as int, operand),
{
    if let Operand::Variable(variable) = operand {
        let j = choose|j: int|
            0 <= j < before.len() && definition(#[trigger] before[j]) == Some(variable);
        assert(after[j] == before[j]);
    }
}

/// A valid block stays valid with one more instruction that is valid behind it.
proof fn lemma_block_push(
    before: Seq<InstructionModel>,
    callables: Map<CallableId, CallableModel>,
    var_bound: VariableId,
    instruction: InstructionModel,
)
    requires
        block_valid(before, callables, var_bound),
        shape_valid(instruction, callables),
        forall|k: int|
            0 <= k < operands(instruction).len() ==> operand_ready(
                before,
                before.len() as int,
                #[trigger] operands(instruction)[k],
            ),
        definition(instruction) matches Some(variable) ==> {
            &&& variable.variable_id < var_bound
            &&& block_valid(before, callables, variable.variable_id)
        },
    ensures
        block_valid(before.push(instruction), callables, var_bound),
{
    let after = before.push(instruction);
    assert forall|i: int| 0 <= i < after.len() implies #[trigger] instruction_valid(
        after,
        i,
        callables,
        var_bound,
    ) by {
        assert forall|k: int| 0 <= k < operands(after[i]).len() implies operand_ready(
            after,
            i,
            #[trigger] operands(after[i])[k],
        ) by {
            if i < before.len() {
                assert(instruction_valid(before, i, callables, var_bound));
                assert(after[i] == before[i]);
                assert(operand_ready(before, i, operands(before[i])[k]));
            } else {
                assert(operand_ready(before, i, operands(instruction)[k]));
            }
            if let Operand::Variable(variable) = operands(after[i])[k] {
                let j = choose|j: int|
                    0 <= j < i && definition(#[trigger] before[j]) == Some(variable);
                assert(after[j] == before[j]);
            }
        }
        if i < before.len() {
            assert(instruction_valid(before, i, callables, var_bound));
            assert(after[i] == before[i]);
        }
    }
    assert forall|i: int, j: int|
        #![trigger after[i], after[j]]
        0 <= i < j < after.len() && definition(after[i]) is Some && definition(
            after[j],
        ) is Some implies definition(after[i])->Some_0.variable_id < definition(
        after[j],
    )->Some_0.variable_id by {
        assert(after[i] == before[i]);
        if j < before.len() {
            assert(after[j] == before[j]);
        } else {
            let variable = definition(instruction)->Some_0;
            assert(instruction_valid(before, i, callables, variable.variable_id));
        }
    }
}

/// A valid block stays valid with more callables and a higher bound.
pub proof fn lemma_block_weaken(
    instructions: Seq<InstructionModel>,
    callables: Map<CallableId, CallableModel>,
    more_callables: Map<CallableId, CallableModel>,
    var_bound: VariableId,
    higher_bound: VariableId,
)
    requires
        block_valid(instructions, callables, var_bound),
        callables.submap_of(more_callables),
        var_bound <= higher_bound,
    ensures
        block_valid(instructions, more_callables, higher_bound),
{
    assert forall|i: int| 0 <= i < instructions.len() implies #[trigger] instruction_valid(
        instructions,
        i,
        more_callables,
        higher_bound,
    ) by {
        assert(instruction_valid(instructions, i, callables, var_bound));
        if let InstructionModel::Call(id, _, _) = instructions[i] {
            assert(callables.dom().contains(id));
            assert(more_callables.dom().contains(id));
        }
    }
}

proof fn lemma_emit(inputs: InputsModel, st: StateModel, instruction: InstructionModel)
    requires
        state_valid(inputs, st),
        shape_valid(instruction, st.program.callables),
        forall|k: int|
            0 <= k < operands(instruction).len() ==> operand_ready(
                st.instructions(),
                st.instructions().len() as int,
                #[trigger] operands(instruction)[k],
            ),
        definition(instruction) matches Some(variable) ==> {
            &&& variable.variable_id < st.resources.next_var
            &&& block_valid(st.instructions(), st.program.callables, variable.variable_id)
        },
    ensures
        advances(inputs, st, st.emit(instruction)),
        st.emit(instruction).instructions() == st.instructions().push(instruction),
{
    lemma_block_push(
        st.instructions(),
        st.program.callables,
        st.resources.next_var,
        instruction,
    );
}

proof fn lemma_get_or_insert_callable(inputs: InputsModel, st: StateModel, callable: CallableModel)
    requires
        state_valid(inputs, st),
        callable.body is None,
    ensures
        get_or_insert_callable(st, callable) matches Ok((st1, id)) ==> {
            &&& advances(inputs, st, st1)
            &&& st1.program.callables.contains_key(id)
            &&& st1.program.callables[id].name == callable.name
            &&& st1.program.callables[id].body is None
            &&& st1.instructions() == st.instructions()
            &&& st1.resources.next_var == st.resources.next_var
            &&& st1.context == st.context
        },
{
    if let Ok((st1, id)) = get_or_insert_callable(st, callable) {
        if !st.callable_ids.contains_key(callable.name) {
            assert(!st.program.callables.contains_key(id));
            lemma_block_weaken(
                st.instructions(),
                st.program.callables,
                st1.program.callables,
                st.resources.next_var,
                st.resources.next_var,
            );
            assert(callables_valid(st1)) by {
                assert forall|name: Seq<char>| #[trigger]
                    st1.callable_ids.contains_key(name) implies {
                    let id = st1.callable_ids[name];
                    id != st1.program.entry && st1.program.callables.contains_key(id)
                        && st1.program.callables[id].name == name
                } by {
                    if name != callable.name {
                        assert(st.callable_ids.contains_key(name));
                    }
                }
                assert forall|other: CallableId| #[trigger]
                    st1.program.callables.contains_key(other) implies {
                    &&& other < st1.resources.next_callable
                    &&& other != st1.program.entry ==> {
                        &&& st1.program.callables[other].body is None
                        &&& st1.callable_ids.contains_key(st1.program.callables[other].name)
                        &&& st1.callable_ids[st1.program.callables[other].name] == other
                    }
                } by {
                    if other != id {
                        assert(st.program.callables.contains_key(other));
                    }
                }
            }
        }
    }
}

proof fn lemma_next_var(inputs: InputsModel, st: StateModel, ty: Ty)
    requires
        state_valid(inputs, st),
    ensures
        next_var(st, ty) matches Ok((st1, variable)) ==> {
            &&& advances(inputs, st, st1)
            &&& st1.instructions() == st.instructions()
            &&& st1.program == st.program
            &&& st1.context == st.context
            &&& variable.variable_id < st1.resources.next_var
            &&& block_valid(st1.instructions(), st1.program.callables, variable.variable_id)
        },
{
    if let Ok((st1, variable)) = next_var(st, ty) {
        lemma_block_weaken(
            st.instructions(),
            st.program.callables,
            st.program.callables,
            st.resources.next_var,
            st1.resources.next_var,
        );
    }
}

proof fn lemma_result_operand(inputs: InputsModel, st: StateModel, result: MeasurementResult)
    requires
        state_valid(inputs, st),
    ensures
        eval_result_as_bool_operand(st, result) matches Ok((st1, operand)) ==> {
            &&& advances(inputs, st, st1)
            &&& operand_ready(st1.instructions(), st1.instructions().len() as int, operand)
            &&& !names_result(operand)
        },
{
    if let Ok((st3, operand)) = eval_result_as_bool_operand(st, result) {
        if result is Id {
            let literal = lower_value(ValueModel::Result(result))->Ok_0;
            lemma_get_or_insert_callable(inputs, st, read_result_model());
            let (st1, callable) = get_or_insert_callable(st, read_result_model())->Ok_0;
            lemma_next_var(inputs, st1, Ty::Boolean);
            let (st2, variable) = next_var(st1, Ty::Boolean)->Ok_0;
            let instruction = InstructionModel::Call(callable, seq![literal], Some(variable));
            lemma_emit(inputs, st2, instruction);
            lemma_continues_trans(st, st1, st2);
            lemma_continues_trans(st, st2, st3);
            let last = st3.instructions().len() - 1;
            assert(definition(st3.instructions()[last]) == Some(variable));
        }
    }
}

proof fn lemma_comparison_operand(inputs: InputsModel, st: StateModel, value: ValueModel)
    requires
        state_valid(inputs, st),
    ensures
        comparison_operand(st, value) matches Ok((st1, operand)) ==> {
            &&& advances(inputs, st, st1)
            &&& operand_ready(st1.instructions(), st1.instructions().len() as int, operand)
            &&& !names_result(operand)
        },
{
    if let ValueModel::Result(result) = value {
        lemma_result_operand(inputs, st, result);
    }
}

proof fn lemma_apply_bin_op(
    inputs: InputsModel,
    st: StateModel,
    expr: Expr,
    op: BinOp,
    lhs: ValueModel,
    rhs: ValueModel,
)
    requires
        state_valid(inputs, st),
    ensures
        apply_bin_op(st, expr, op, lhs, rhs) matches Ok((st1, _)) ==> advances(inputs, st, st1),
{
    if let Ok((st4, _)) = apply_bin_op(st, expr, op, lhs, rhs) {
        lemma_comparison_operand(inputs, st, lhs);
        let (st1, lhs_operand) = comparison_operand(st, lhs)->Ok_0;
        lemma_comparison_operand(inputs, st1, rhs);
        let (st2, rhs_operand) = comparison_operand(st1, rhs)->Ok_0;
        lemma_ready_grows(st1.instructions(), st2.instructions(), lhs_operand);
        lemma_continues_trans(st, st1, st2);
        let ty = crate::lowering::lower_type(expr.ty)->Ok_0;
        lemma_next_var(inputs, st2, ty);
        let (st3, variable) = next_var(st2, ty)->Ok_0;
        lemma_continues_trans(st, st2, st3);
        if let Some(code) = crate::semantics::condition_code(op) {
            let instruction = InstructionModel::Icmp(code, lhs_operand, rhs_operand, variable);
            lemma_emit(inputs, st3, instruction);
            lemma_continues_trans(st, st3, st4);
        }
    }
}

/// Lowered values are literals.
proof fn lemma_lower_values(values: Seq<ValueModel>, i: int)
    ensures
        lower_values(values, i) matches Ok(lowered) ==> forall|k: int|
            0 <= k < lowered.len() ==> (#[trigger] lowered[k]) is Literal,
    decreases values.len() - i,
{
    if 0 <= i < values.len() {
        lemma_lower_values(values, i + 1);
    }
}

proof fn lemma_measure_qubit(
    inputs: InputsModel,
    st: StateModel,
    callable: CallableModel,
    args: ValueModel,
)
    requires
        state_valid(inputs, st),
        callable.body is None,
    ensures
        measure_qubit(st, callable, args) matches Ok((st1, _)) ==> advances(inputs, st, st1),
{
    if let Ok((st3, result)) = measure_qubit(st, callable, args) {
        let id = st.resources.next_result;
        let st1 = StateModel {
            resources: crate::management::ResourcesModel {
                next_result: (id + 1) as usize,
                ..st.resources
            },
            ..st
        };
        assert(advances(inputs, st, st1));
        lemma_get_or_insert_callable(inputs, st1, callable);
        let (st2, callable_id) = get_or_insert_callable(st1, callable)->Ok_0;
        lemma_continues_trans(st, st1, st2);
        let args = seq![lower_value(args)->Ok_0, lower_value(result)->Ok_0];
        lemma_emit(inputs, st2, InstructionModel::Call(callable_id, args, None));
        lemma_continues_trans(st, st2, st3);
    }
}

proof fn lemma_call_intrinsic(
    inputs: InputsModel,
    st: StateModel,
    decl: CallableDecl,
    args: ValueModel,
)
    requires
        state_valid(inputs, st),
    ensures
        call_intrinsic(st, decl, args) matches Ok((st1, _)) ==> advances(inputs, st, st1),
{
    lemma_measure_qubit(inputs, st, mz_model(), args);
    lemma_measure_qubit(inputs, st, mresetz_model(), args);
    if let Ok((st2, _)) = call_intrinsic_qis(st, decl, args) {
        let callable = intrinsic_callable(decl)->Ok_0;
        lemma_get_or_insert_callable(inputs, st, callable);
        let (st1, callable_id) = get_or_insert_callable(st, callable)->Ok_0;
        let lowered = call_operands(args)->Ok_0;
        if let ValueModel::Tuple(elements) = args {
            lemma_lower_values(elements, 0);
        }
        lemma_emit(inputs, st1, InstructionModel::Call(callable_id, lowered, None));
        lemma_continues_trans(st, st1, st2);
    }
}

proof fn lemma_insert_value(inputs: InputsModel, st: StateModel, id: u32, value: ValueModel)
    requires
        state_valid(inputs, st),
    ensures
        advances(inputs, st, st.insert_expr_value(id, value)),
        advances(inputs, st, st.insert_local_var(id, value)),
{
    let st1 = st.insert_expr_value(id, value);
    assert forall|i: int| 0 <= i < st1.context.scopes.len() implies scope_resolves(
        inputs.store,
        #[trigger] st1.context.scopes[i],
    ) by {
        assert(scope_resolves(inputs.store, st.context.scopes[i]));
    }
    let st2 = st.insert_local_var(id, value);
    assert forall|i: int| 0 <= i < st2.context.scopes.len() implies scope_resolves(
        inputs.store,
        #[trigger] st2.context.scopes[i],
    ) by {
        assert(scope_resolves(inputs.store, st.context.scopes[i]));
    }
}

/// The initial state of a package that exists is valid.
pub proof fn lemma_initial_state(inputs: InputsModel, package: usize)
    requires
        inputs.store.package(package) is Some,
    ensures
        state_valid(inputs, initial_state(package)),
{
}

/// Evaluating an expression leads to a valid state that continues the one before. Without an
/// error it records the expression's value.
pub proof fn lemma_visit_expr(inputs: InputsModel, depth: nat, st: StateModel, id: ExprId)
    requires
        state_valid(inputs, st),
    ensures
        visit_expr(inputs, depth, st, id) matches Ok(st1) ==> {
            &&& advances(inputs, st, st1)
            &&& st1.errors.len() == 0 ==> st1.scope().expr_values.contains_key(id)
        },
    decreases depth, 0int, 0int,
{
    if let Ok(st2) = visit_expr(inputs, depth, st, id) {
        let kind = inputs.compute_properties.expr(st.package(), id)->Some_0;
        let expr = inputs.store.expr(st.package(), id)->Some_0;
        let flow = if kind is Classical {
            eval_classical_expr(inputs, st, id, expr)
        } else {
            lemma_eval_expr(inputs, (depth - 1) as nat, st, expr);
            eval_expr(inputs, (depth - 1) as nat, st, expr)
        };
        let (st1, result) = flow->Ok_0;
        assert(advances(inputs, st, st1));
        if let Ok(value) = result {
            lemma_insert_value(inputs, st1, id, value);
        } else {
            assert(advances(inputs, st1, st2));
        }
        lemma_continues_trans(st, st1, st2);
    }
}

pub proof fn lemma_eval_expr(inputs: InputsModel, depth: nat, st: StateModel, expr: Expr)
    requires
        state_valid(inputs, st),
    ensures
        eval_expr(inputs, depth, st, expr) matches Ok((st1, _)) ==> advances(inputs, st, st1),
    decreases depth, 6int, 0int,
{
    match expr.kind {
        ExprKind::BinOp(op, lhs, rhs) => {
            lemma_eval_bin_op(inputs, depth, st, expr, op, lhs, rhs);
        },
        ExprKind::Call(callee, args) => {
            lemma_eval_call(inputs, depth, st, callee, args);
        },
        ExprKind::Tuple(exprs) => {
            lemma_eval_tuple(inputs, depth, st, exprs@, 0, Seq::empty());
        },
        _ => {},
    }
}

proof fn lemma_eval_bin_op(
    inputs: InputsModel,
    depth: nat,
    st: StateModel,
    expr: Expr,
    op: BinOp,
    lhs: ExprId,
    rhs: ExprId,
)
    requires
        state_valid(inputs, st),
    ensures
        eval_bin_op(inputs, depth, st, expr, op, lhs, rhs) matches Ok((st1, _)) ==> advances(
            inputs,
            st,
            st1,
        ),
    decreases depth, 5int, 0int,
{
    lemma_visit_expr(inputs, depth, st, lhs);
    if let Ok((st1, Some(lhs_value))) = try_eval_expr(inputs, depth, st, lhs) {
        lemma_visit_expr(inputs, depth, st1, rhs);
        if let Ok((st2, rhs_result)) = try_eval_expr(inputs, depth, st1, rhs) {
            lemma_continues_trans(st, st1, st2);
            if let Some(rhs_value) = rhs_result {
                lemma_apply_bin_op(inputs, st2, expr, op, lhs_value, rhs_value);
                if let Ok((st3, _)) = apply_bin_op(st2, expr, op, lhs_value, rhs_value) {
                    lemma_continues_trans(st, st2, st3);
                }
            }
        }
    }
}

proof fn lemma_eval_call(
    inputs: InputsModel,
    depth: nat,
    st: StateModel,
    callee: ExprId,
    args: ExprId,
)
    requires
        state_valid(inputs, st),
    ensures
        eval_call(inputs, depth, st, callee, args) matches Ok((st1, _)) ==> advances(
            inputs,
            st,
            st1,
        ),
    decreases depth, 5int, 0int,
{
    lemma_visit_expr(inputs, depth, st, callee);
    if let Ok((st1, Some(callable_value))) = try_eval_expr(inputs, depth, st, callee) {
        lemma_visit_expr(inputs, depth, st1, args);
        if let Ok((st2, args_result)) = try_eval_expr(inputs, depth, st1, args) {
            lemma_continues_trans(st, st1, st2);
            if let Some(args_value) = args_result {
                if let ValueModel::Global(id, functors) = callable_value {
                    if let Some(Global::Callable(decl)) = inputs.store.global(id) {
                        if let CallableImpl::Spec(specializations) = decl.implementation {
                            lemma_call_spec(
                                inputs,
                                depth,
                                st2,
                                id,
                                functors,
                                decl,
                                specializations,
                            );
                        } else {
                            lemma_call_intrinsic(inputs, st2, decl, args_value);
                        }
                        if let Ok((st3, _)) = eval_call(inputs, depth, st, callee, args) {
                            lemma_continues_trans(st, st2, st3);
                        }
                    }
                }
            }
        }
    }
}

/// While a specialization runs, its scope lies on top of the caller's, and it is that scope that
/// is popped when it ends.
pub proof fn lemma_call_spec(
    inputs: InputsModel,
    depth: nat,
    st: StateModel,
    id: StoreItemId,
    functors: FunctorApp,
    decl: CallableDecl,
    specializations: Specializations,
)
    requires
        state_valid(inputs, st),
        inputs.store.global(id) == Some(Global::Callable(decl)),
        decl.implementation == CallableImpl::Spec(specializations),
    ensures
        spec_decl(specializations, functors) matches Ok(running) ==> {
            st.context.next_scope < usize::MAX ==> {
                let inner = st.push_call(id, functors);
                &&& state_valid(inputs, inner)
                &&& visit_block(inputs, depth, inner, running.block) matches Ok(st1) ==> {
                    &&& state_valid(inputs, st1)
                    &&& st1.context.scopes.len() == st.context.scopes.len() + 1
                    &&& same_call(st1.scope(), inner.scope())
                    &&& st1.pop_scope().context.scopes == st.context.scopes
                    &&& st1.context.current_block == st.context.current_block
                }
            }
        },
        call_spec(inputs, depth, st, id, functors, decl, specializations) matches Ok((st2, _))
            ==> advances(inputs, st, st2),
    decreases depth, 4int, 0int,
{
    if spec_decl(specializations, functors) is Ok && st.context.next_scope < usize::MAX {
        let running = spec_decl(specializations, functors)->Ok_0;
        let inner = st.push_call(id, functors);
        let scope = inner.scope();
        assert(StoreItemId { package: id.package, item: id.item } == id);
        assert(running_spec_decl(inputs.store, id.package, id.item, functors) == Some(running));
        assert(scope_resolves(inputs.store, scope));
        assert forall|i: int| 0 <= i < inner.context.scopes.len() implies scope_resolves(
            inputs.store,
            #[trigger] inner.context.scopes[i],
        ) by {
            if i < st.context.scopes.len() {
                assert(scope_resolves(inputs.store, st.context.scopes[i]));
            }
        }
        assert(state_valid(inputs, inner));
        lemma_visit_block(inputs, depth, inner, running.block);
        if let Ok(st1) = visit_block(inputs, depth, inner, running.block) {
            let st2 = st1.pop_scope();
            assert forall|i: int| 0 <= i < st.context.scopes.len() implies #[trigger]
            st2.context.scopes[i] == st.context.scopes[i] by {
                assert(st1.context.scopes[i] == inner.context.scopes[i]);
            }
            assert(st2.context.scopes =~= st.context.scopes);
            assert(advances(inputs, st, st2));
        }
    }
}

proof fn lemma_eval_tuple(
    inputs: InputsModel,
    depth: nat,
    st: StateModel,
    exprs: Seq<ExprId>,
    i: int,
    values: Seq<ValueModel>,
)
    requires
        state_valid(inputs, st),
    ensures
        eval_tuple(inputs, depth, st, exprs, i, values) matches Ok((st1, _)) ==> advances(
            inputs,
            st,
            st1,
        ),
    decreases depth, 2int, exprs.len() - i,
{
    if 0 <= i < exprs.len() {
        lemma_visit_expr(inputs, depth, st, exprs[i]);
        if let Ok((st1, Some(value))) = try_eval_expr(inputs, depth, st, exprs[i]) {
            lemma_eval_tuple(inputs, depth, st1, exprs, i + 1, values.push(value));
            if let Ok((st2, _)) = eval_tuple(
                inputs,
                depth,
                st1,
                exprs,
                i + 1,
                values.push(value),
            ) {
                lemma_continues_trans(st, st1, st2);
            }
        }
    }
}

pub proof fn lemma_visit_block(inputs: InputsModel, depth: nat, st: StateModel, block: BlockId)
    requires
        state_valid(inputs, st),
    ensures
        visit_block(inputs, depth, st, block) matches Ok(st1) ==> advances(inputs, st, st1),
    decreases depth, 3int, 0int,
{
    if let Some(block) = inputs.store.block(st.package(), block) {
        lemma_visit_stmts(inputs, depth, st, block.stmts@, 0);
    }
}

pub proof fn lemma_visit_stmts(
    inputs: InputsModel,
    depth: nat,
    st: StateModel,
    stmts: Seq<StmtId>,
    i: int,
)
    requires
        state_valid(inputs, st),
    ensures
        visit_stmts(inputs, depth, st, stmts, i) matches Ok(st1) ==> advances(inputs, st, st1),
    decreases depth, 2int, stmts.len() - i,
{
    if 0 <= i < stmts.len() {
        lemma_visit_stmt(inputs, depth, st, stmts[i]);
        if let Ok(st1) = visit_stmt(inputs, depth, st, stmts[i]) {
            lemma_visit_stmts(inputs, depth, st1, stmts, i + 1);
            if let Ok(st2) = visit_stmts(inputs, depth, st1, stmts, i + 1) {
                lemma_continues_trans(st, st1, st2);
            }
        }
    }
}

pub proof fn lemma_visit_stmt(inputs: InputsModel, depth: nat, st: StateModel, id: StmtId)
    requires
        state_valid(inputs, st),
    ensures
        visit_stmt(inputs, depth, st, id) matches Ok(st1) ==> advances(inputs, st, st1),
    decreases depth, 1int, 0int,
{
    if let Some(stmt) = inputs.store.stmt(st.package(), id) {
        match stmt.kind {
            StmtKind::Expr(expr) => {
                lemma_visit_expr(inputs, depth, st, expr);
            },
            StmtKind::Semi(expr) => {
                lemma_visit_expr(inputs, depth, st, expr);
            },
            StmtKind::Local(pat, expr) => {
                lemma_visit_expr(inputs, depth, st, expr);
                if let Ok(st1) = visit_expr(inputs, depth, st, expr) {
                    lemma_bind_expr_to_pat(inputs, depth, st1, pat, expr);
                    if let Ok(st2) = bind_expr_to_pat(inputs, depth, st1, pat, expr) {
                        lemma_continues_trans(st, st1, st2);
                    }
                }
            },
            StmtKind::Item(_) => {},
        }
    }
}

pub proof fn lemma_bind_expr_to_pat(
    inputs: InputsModel,
    depth: nat,
    st: StateModel,
    pat: PatId,
    expr: ExprId,
)
    requires
        state_valid(inputs, st),
    ensures
        bind_expr_to_pat(inputs, depth, st, pat, expr) matches Ok(st1) ==> advances(
            inputs,
            st,
            st1,
        ),
    decreases depth, 0int, 0int,
{
    if let Ok(_) = bind_expr_to_pat(inputs, depth, st, pat, expr) {
        match inputs.store.pat(st.package(), pat)->Some_0.kind {
            PatKind::Bind(ident) => {
                lemma_insert_value(inputs, st, ident.id, st.scope().expr_values[expr]);
            },
            PatKind::Discard => {},
            PatKind::Tuple(pats) => {
                if let ExprKind::Tuple(exprs) = inputs.store.expr(
                    st.package(),
                    expr,
                )->Some_0.kind {
                    lemma_bind_exprs_to_pats(
                        inputs,
                        (depth - 1) as nat,
                        st,
                        pats@,
                        exprs@,
                        0,
                    );
                }
            },
        }
    }
}

pub proof fn lemma_bind_exprs_to_pats(
    inputs: InputsModel,
    depth: nat,
    st: StateModel,
    pats: Seq<PatId>,
    exprs: Seq<ExprId>,
    i: int,
)
    requires
        state_valid(inputs, st),
    ensures
        bind_exprs_to_pats(inputs, depth, st, pats, exprs, i) matches Ok(st1) ==> advances(
            inputs,
            st,
            st1,
        ),
    decreases depth, 1int, pats.len() - i,
{
    if 0 <= i < pats.len() {
        lemma_bind_expr_to_pat(inputs, depth, st, pats[i], exprs[i]);
        if let Ok(st1) = bind_expr_to_pat(inputs, depth, st, pats[i], exprs[i]) {
            lemma_bind_exprs_to_pats(inputs, depth, st1, pats, exprs, i + 1);
            if let Ok(st2) = bind_exprs_to_pats(inputs, depth, st1, pats, exprs, i + 1) {
                lemma_continues_trans(st, st1, st2);
            }
        }
    }
}

} // verus!
