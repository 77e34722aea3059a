//! What each change of an evaluation state changes, and that it changes nothing else.

use crate::error::{ErrorModel, Fault, Stop};
use crate::evaluation_context::{ContextModel, ScopeModel};
use crate::fir::{ExprId, FunctorApp, LocalItemId, LocalVarId, PackageId, StoreItemId};
use crate::management::{lemma_first_free, ResourcesModel};
use crate::rir::{
    CallableId, CallableModel, CallableType, InstructionModel, ProgramModel, Ty, Variable,
};
use crate::semantics::{get_or_insert_callable, initial_state, next_var, StateModel};
use crate::value::ValueModel;
use vstd::prelude::*;

verus! {

/// The innermost scope of a state.
pub open spec fn innermost(st: StateModel) -> ScopeModel {
    st.context.scopes[st.context.scopes.len() - 1]
}

/// The instructions generated so far.
pub open spec fn generated(st: StateModel) -> Seq<InstructionModel> {
    st.program.blocks[st.context.current_block]
}

/// Two states that differ at most in their scopes and the identifier of the next call.
pub open spec fn same_but_scopes(a: StateModel, b: StateModel) -> bool {
    &&& b.next_reply == a.next_reply
    &&& b.resources == a.resources
    &&& b.callable_ids == a.callable_ids
    &&& b.context.current_block == a.context.current_block
    &&& b.program == a.program
    &&& b.errors == a.errors
}

/// Two states that differ at most in the instructions of the current block.
pub open spec fn same_but_instructions(a: StateModel, b: StateModel) -> bool {
    &&& b.next_reply == a.next_reply
    &&& b.resources == a.resources
    &&& b.callable_ids == a.callable_ids
    &&& b.context == a.context
    &&& b.program.entry == a.program.entry
    &&& b.program.callables == a.program.callables
    &&& b.program.blocks.remove(a.context.current_block) == a.program.blocks.remove(
        a.context.current_block,
    )
    &&& b.errors == a.errors
}

/// Two states of which the second has one more instruction, at the end of the current block.
pub open spec fn adds_instruction(
    a: StateModel,
    b: StateModel,
    instruction: InstructionModel,
) -> bool {
    &&& same_but_instructions(a, b)
    &&& b.program.blocks.contains_key(a.context.current_block)
    &&& generated(b) == generated(a).push(instruction)
}

/// Two states of which the second has one more error, behind the others.
pub open spec fn adds_error(a: StateModel, b: StateModel, error: ErrorModel) -> bool {
    &&& b.next_reply == a.next_reply
    &&& b.resources == a.resources
    &&& b.callable_ids == a.callable_ids
    &&& b.context == a.context
    &&& b.program == a.program
    &&& b.errors == a.errors.push(error)
}

/// Two states of which the second has used one more reply.
pub open spec fn uses_reply(a: StateModel, b: StateModel) -> bool {
    &&& b.next_reply == a.next_reply + 1
    &&& b.resources == a.resources
    &&& b.callable_ids == a.callable_ids
    &&& b.context == a.context
    &&& b.program == a.program
    &&& b.errors == a.errors
}

/// Two states that have the same scopes but for the values of the innermost one.
pub open spec fn same_calls(a: StateModel, b: StateModel) -> bool {
    &&& b.context.next_scope == a.context.next_scope
    &&& b.context.scopes.len() == a.context.scopes.len()
    &&& forall|i: int|
        0 <= i < a.context.scopes.len() - 1 ==> #[trigger] b.context.scopes[i]
            == a.context.scopes[i]
    &&& innermost(b).id == innermost(a).id
    &&& innermost(b).package_id == innermost(a).package_id
    &&& innermost(b).callable == innermost(a).callable
}

/// Two states of which the second knows the value of one more expression.
pub open spec fn records_value(
    a: StateModel,
    b: StateModel,
    id: ExprId,
    value: ValueModel,
) -> bool {
    &&& same_but_scopes(a, b)
    &&& same_calls(a, b)
    &&& innermost(b).expr_values == innermost(a).expr_values.insert(id, value)
    &&& innermost(b).local_vars == innermost(a).local_vars
}

/// Two states of which the second gives a local variable a value.
pub open spec fn sets_local(
    a: StateModel,
    b: StateModel,
    id: LocalVarId,
    value: ValueModel,
) -> bool {
    &&& same_but_scopes(a, b)
    &&& same_calls(a, b)
    &&& innermost(b).expr_values == innermost(a).expr_values
    &&& innermost(b).local_vars == innermost(a).local_vars.insert(id, value)
}

/// Two states of which the second runs one more call, in a scope of its own that knows nothing.
pub open spec fn enters_call(
    a: StateModel,
    b: StateModel,
    id: StoreItemId,
    functors: FunctorApp,
) -> bool {
    &&& same_but_scopes(a, b)
    &&& b.context.next_scope == a.context.next_scope + 1
    &&& b.context.scopes.len() == a.context.scopes.len() + 1
    &&& forall|i: int|
        0 <= i < a.context.scopes.len() ==> #[trigger] b.context.scopes[i] == a.context.scopes[i]
    &&& innermost(b).id == a.context.next_scope
    &&& innermost(b).package_id == id.package
    &&& innermost(b).callable == Some((id.item, functors))
    &&& innermost(b).expr_values.dom() == Set::<ExprId>::empty()
    &&& innermost(b).local_vars.dom() == Set::<LocalVarId>::empty()
}

/// Two states of which the second has ended the innermost call.
pub open spec fn leaves_call(a: StateModel, b: StateModel) -> bool {
    &&& same_but_scopes(a, b)
    &&& b.context.next_scope == a.context.next_scope
    &&& b.context.scopes.len() == a.context.scopes.len() - 1
    &&& forall|i: int|
        0 <= i < b.context.scopes.len() ==> #[trigger] b.context.scopes[i] == a.context.scopes[i]
}

/// Two states of which the second has handed out one more variable.
pub open spec fn takes_variable(a: StateModel, b: StateModel) -> bool {
    &&& b.next_reply == a.next_reply
    &&& b.resources.qubits_in_use == a.resources.qubits_in_use
    &&& b.resources.next_block == a.resources.next_block
    &&& b.resources.next_callable == a.resources.next_callable
    &&& b.resources.next_result == a.resources.next_result
    &&& b.resources.next_var == a.resources.next_var + 1
    &&& b.callable_ids == a.callable_ids
    &&& b.context == a.context
    &&& b.program == a.program
    &&& b.errors == a.errors
}

/// Two states of which the second has handed out one more measurement result.
pub open spec fn takes_result(a: StateModel, b: StateModel) -> bool {
    &&& b.next_reply == a.next_reply
    &&& b.resources.qubits_in_use == a.resources.qubits_in_use
    &&& b.resources.next_block == a.resources.next_block
    &&& b.resources.next_callable == a.resources.next_callable
    &&& b.resources.next_result == a.resources.next_result + 1
    &&& b.resources.next_var == a.resources.next_var
    &&& b.callable_ids == a.callable_ids
    &&& b.context == a.context
    &&& b.program == a.program
    &&& b.errors == a.errors
}

/// Two states that differ at most in which qubits are in use.
pub open spec fn same_but_qubits(a: StateModel, b: StateModel) -> bool {
    &&& b.next_reply == a.next_reply
    &&& b.resources.next_block == a.resources.next_block
    &&& b.resources.next_callable == a.resources.next_callable
    &&& b.resources.next_result == a.resources.next_result
    &&& b.resources.next_var == a.resources.next_var
    &&& b.callable_ids == a.callable_ids
    &&& b.context == a.context
    &&& b.program == a.program
    &&& b.errors == a.errors
}

/// Whether a qubit is allocated and not released.
pub open spec fn uses_qubit(st: StateModel, qubit: int) -> bool {
    &&& 0 <= qubit < st.resources.qubits_in_use.len()
    &&& st.resources.qubits_in_use[qubit]
}

/// An instruction goes to the end of the current block.
pub proof fn law_emit(st: StateModel, instruction: InstructionModel)
    ensures
        adds_instruction(st, st.emit(instruction), instruction),
{
    assert(st.emit(instruction).program.blocks.remove(st.context.current_block)
        =~= st.program.blocks.remove(st.context.current_block));
}

/// An error goes behind the others.
pub proof fn law_push_error(st: StateModel, error: ErrorModel)
    ensures
        adds_error(st, st.push_error(error), error),
{
}

/// The value of an expression is recorded in the innermost scope.
pub proof fn law_insert_expr_value(st: StateModel, id: ExprId, value: ValueModel)
    requires
        st.context.scopes.len() > 0,
    ensures
        records_value(st, st.insert_expr_value(id, value), id, value),
{
}

/// A local variable is set in the innermost scope.
pub proof fn law_insert_local_var(st: StateModel, id: LocalVarId, value: ValueModel)
    requires
        st.context.scopes.len() > 0,
    ensures
        sets_local(st, st.insert_local_var(id, value), id, value),
{
}

/// A call runs in a new scope.
pub proof fn law_push_call(st: StateModel, id: StoreItemId, functors: FunctorApp)
    requires
        st.context.next_scope < usize::MAX,
    ensures
        enters_call(st, st.push_call(id, functors), id, functors),
{
    assert(innermost(st.push_call(id, functors)).expr_values.dom() =~= Set::<ExprId>::empty());
    assert(innermost(st.push_call(id, functors)).local_vars.dom() =~= Set::<LocalVarId>::empty());
}

/// The end of a call takes its scope away.
pub proof fn law_pop_scope(st: StateModel)
    requires
        st.context.scopes.len() > 0,
    ensures
        leaves_call(st, st.pop_scope()),
{
}

/// What a context does with its scopes: the innermost one is the last, a call adds one behind
/// it, and the end of a call removes it.
pub proof fn law_context_is_a_stack(
    context: ContextModel,
    scope: ScopeModel,
    package: PackageId,
    item: LocalItemId,
    functors: FunctorApp,
    i: int,
)
    requires
        context.scopes.len() > 0,
        context.next_scope < usize::MAX,
    ensures
        context.current_scope() == context.scopes[context.scopes.len() - 1],
        context.with_current_scope(scope).scopes.len() == context.scopes.len(),
        context.with_current_scope(scope).scopes[context.scopes.len() - 1] == scope,
        0 <= i < context.scopes.len() - 1 ==> context.with_current_scope(scope).scopes[i]
            == context.scopes[i],
        context.with_current_scope(scope).next_scope == context.next_scope,
        context.with_current_scope(scope).current_block == context.current_block,
        context.push_call(package, item, functors).scopes.len() == context.scopes.len() + 1,
        context.push_call(package, item, functors).current_block == context.current_block,
        context.push_call(package, item, functors).next_scope == context.next_scope + 1,
        context.push_call(package, item, functors).scopes[context.scopes.len() as int].id
            == context.next_scope,
        context.push_call(package, item, functors).scopes[context.scopes.len() as int].package_id
            == package,
        context.push_call(package, item, functors).scopes[context.scopes.len() as int].callable
            == Some((item, functors)),
        context.push_call(package, item, functors).pop_scope().scopes == context.scopes,
        context.pop_scope().current_block == context.current_block,
        context.pop_scope().next_scope == context.next_scope,
{
}

/// A new scope knows no value; a value that is entered is found under its identifier, and only
/// there.
pub proof fn law_scope_holds_values(
    scope: ScopeModel,
    id: usize,
    package: PackageId,
    callable: Option<(LocalItemId, FunctorApp)>,
    key: u32,
    other: u32,
    value: ValueModel,
)
    ensures
        ScopeModel::fresh(id, package, callable).id == id,
        ScopeModel::fresh(id, package, callable).package_id == package,
        ScopeModel::fresh(id, package, callable).callable == callable,
        !ScopeModel::fresh(id, package, callable).expr_values.contains_key(key),
        !ScopeModel::fresh(id, package, callable).local_vars.contains_key(key),
        scope.insert_expr_value(key, value).expr_values.get(key) == Some(value),
        other != key ==> scope.insert_expr_value(key, value).expr_values.get(other)
            == scope.expr_values.get(other),
        scope.insert_expr_value(key, value).local_vars == scope.local_vars,
        scope.insert_expr_value(key, value).id == scope.id,
        scope.insert_expr_value(key, value).package_id == scope.package_id,
        scope.insert_expr_value(key, value).callable == scope.callable,
        scope.insert_local_var(key, value).local_vars.get(key) == Some(value),
        other != key ==> scope.insert_local_var(key, value).local_vars.get(other)
            == scope.local_vars.get(other),
        scope.insert_local_var(key, value).expr_values == scope.expr_values,
        scope.insert_local_var(key, value).id == scope.id,
        scope.insert_local_var(key, value).package_id == scope.package_id,
        scope.insert_local_var(key, value).callable == scope.callable,
{
}

/// An instruction that is added to a block stands behind those of the block, and nothing else of
/// the program changes.
pub proof fn law_program_grows(
    program: ProgramModel,
    block: u32,
    other: u32,
    instruction: InstructionModel,
)
    ensures
        program.push_instruction(block, instruction).blocks[block] == program.blocks[block].push(
            instruction,
        ),
        other != block ==> program.push_instruction(block, instruction).blocks.get(other)
            == program.blocks.get(other),
        program.push_instruction(block, instruction).callables == program.callables,
        program.push_instruction(block, instruction).entry == program.entry,
{
}

/// Nothing is in use and every identifier starts at zero.
pub proof fn law_no_resources()
    ensures
        ResourcesModel::empty().qubits_in_use.len() == 0,
        ResourcesModel::empty().next_block == 0,
        ResourcesModel::empty().next_callable == 0,
        ResourcesModel::empty().next_result == 0,
        ResourcesModel::empty().next_var == 0,
{
}

/// The qubit that is allocated is the lowest one whose flag is down; afterwards its flag is up
/// and every other flag is as before.
pub proof fn law_allocated_qubit(resources: ResourcesModel, i: int)
    ensures
        ({
            let before = resources.qubits_in_use;
            let after = resources.allocate_qubit().qubits_in_use;
            let qubit = resources.free_qubit();
            &&& 0 <= qubit <= before.len()
            &&& qubit < before.len() ==> !before[qubit]
            &&& 0 <= i < qubit ==> before[i]
            &&& qubit < after.len() && after[qubit]
            &&& qubit == before.len() ==> after.len() == before.len() + 1
            &&& qubit < before.len() ==> after.len() == before.len()
            &&& 0 <= i < before.len() && i != qubit ==> after[i] == before[i]
        }),
        resources.allocate_qubit().next_block == resources.next_block,
        resources.allocate_qubit().next_callable == resources.next_callable,
        resources.allocate_qubit().next_result == resources.next_result,
        resources.allocate_qubit().next_var == resources.next_var,
{
    lemma_first_free(resources.qubits_in_use, 0);
}

/// The flag of a released qubit is down, and every other flag is as before.
pub proof fn law_released_qubit(resources: ResourcesModel, qubit: int, i: int)
    requires
        0 <= qubit < resources.qubits_in_use.len(),
    ensures
        resources.release_qubit(qubit).qubits_in_use.len() == resources.qubits_in_use.len(),
        !resources.release_qubit(qubit).qubits_in_use[qubit],
        0 <= i < resources.qubits_in_use.len() && i != qubit ==> resources.release_qubit(
            qubit,
        ).qubits_in_use[i] == resources.qubits_in_use[i],
        resources.release_qubit(qubit).next_block == resources.next_block,
        resources.release_qubit(qubit).next_callable == resources.next_callable,
        resources.release_qubit(qubit).next_result == resources.next_result,
        resources.release_qubit(qubit).next_var == resources.next_var,
{
}

/// A qubit is in use exactly if its flag is up.
pub proof fn law_flags_tell_use(resources: ResourcesModel, qubit: int)
    ensures
        resources.in_use(qubit) <==> (0 <= qubit < resources.qubits_in_use.len()
            && resources.qubits_in_use[qubit]),
{
}

/// The program starts with an empty block that the entry callable runs, in the entry package,
/// with nothing in use and nothing known.
pub proof fn law_initial_state(package: PackageId)
    ensures
        ({
            let st = initial_state(package);
            let main = st.program.callables[st.program.entry];
            &&& st.next_reply == 0
            &&& st.errors.len() == 0
            &&& st.resources.qubits_in_use.len() == 0
            &&& st.resources.next_result == 0
            &&& st.resources.next_var == 0
            &&& st.callable_ids.dom() =~= Set::<Seq<char>>::empty()
            &&& st.program.entry == 0
            &&& st.resources.next_callable == 1
            &&& st.program.callables.dom() =~= Set::<CallableId>::empty().insert(st.program.entry)
            &&& main.name == "main"@
            &&& main.input_type.len() == 0
            &&& main.output_type is None
            &&& main.body == Some(st.context.current_block)
            &&& main.call_type == CallableType::Regular
            &&& st.context.current_block == 0
            &&& st.resources.next_block == 1
            &&& st.program.blocks.dom() =~= Set::<u32>::empty().insert(st.context.current_block)
            &&& generated(st).len() == 0
            &&& st.context.scopes.len() == 1
            &&& st.context.next_scope == 1
            &&& innermost(st).id == 0
            &&& innermost(st).package_id == package
            &&& innermost(st).callable is None
            &&& innermost(st).expr_values.dom() =~= Set::<ExprId>::empty()
            &&& innermost(st).local_vars.dom() =~= Set::<LocalVarId>::empty()
        }),
{
}

/// A callable whose name is known is the one that the program holds under that name, and nothing
/// changes. Otherwise it is added under the next identifier, unless there is none.
pub proof fn law_callable_is_found_or_added(st: StateModel, callable: CallableModel)
    ensures
        st.callable_ids.contains_key(callable.name) ==> get_or_insert_callable(st, callable)
            == Ok::<(StateModel, CallableId), Stop>((st, st.callable_ids[callable.name])),
        !st.callable_ids.contains_key(callable.name) && st.resources.next_callable == u32::MAX
            ==> get_or_insert_callable(st, callable) == Err::<(StateModel, CallableId), Stop>(
            Stop::Fault(Fault::IdentifiersExhausted),
        ),
        !st.callable_ids.contains_key(callable.name) && st.resources.next_callable < u32::MAX ==> {
            &&& get_or_insert_callable(st, callable) is Ok
            &&& get_or_insert_callable(st, callable) matches Ok((st1, id)) ==> {
                &&& id == st.resources.next_callable
                &&& st1.resources.next_callable == st.resources.next_callable + 1
                &&& st1.callable_ids == st.callable_ids.insert(callable.name, id)
                &&& st1.program.callables == st.program.callables.insert(id, callable)
                &&& st1.program.entry == st.program.entry
                &&& st1.program.blocks == st.program.blocks
                &&& st1.resources.qubits_in_use == st.resources.qubits_in_use
                &&& st1.resources.next_block == st.resources.next_block
                &&& st1.resources.next_result == st.resources.next_result
                &&& st1.resources.next_var == st.resources.next_var
                &&& st1.next_reply == st.next_reply
                &&& st1.context == st.context
                &&& st1.errors == st.errors
            }
        },
{
}

/// A new variable has the next identifier and the given type, unless no identifier is left.
pub proof fn law_next_variable(st: StateModel, ty: Ty)
    ensures
        st.resources.next_var == u32::MAX ==> next_var(st, ty) == Err::<
            (StateModel, Variable),
            Stop,
        >(Stop::Fault(Fault::IdentifiersExhausted)),
        st.resources.next_var < u32::MAX ==> {
            &&& next_var(st, ty) is Ok
            &&& next_var(st, ty) matches Ok((st1, variable)) ==> {
                &&& takes_variable(st, st1)
                &&& variable.variable_id == st.resources.next_var
                &&& variable.ty == ty
            }
        },
{
}

} // verus!
