//! What holds of every evaluation.

use crate::classical::ClassicalReplyModel;
use crate::error::{ErrorModel, Fault, Stop};
use crate::evaluation_context::ScopeModel;
use crate::fir::{
    CallableDecl, CallableImpl, ExprId, ExprKind, FunctorApp, Global, LocalVarId, PackageId,
    PackageStore, PatId, PatKind, Specializations, StoreItemId,
};
use crate::management::{lemma_first_free, ResourcesModel};
use crate::rir::{CallableId, CallableModel, InstructionModel, ProgramModel};
use crate::semantics::{
    bind_expr_to_pat, bind_exprs_to_pats, call_spec, entry_callable, evaluate,
    get_or_insert_callable, initial_state, measure_qubit, visit_expr, InputsModel, OutcomeModel,
    StateModel,
};
use crate::validity::{
    block_valid, calls, continues, instruction_valid, lemma_block_weaken, lemma_call_spec, lemma_initial_state,
    lemma_visit_expr, state_valid,
};
use crate::value::ValueModel;
use vstd::prelude::*;

verus! {

/// Whether a program is a single block that its entry callable runs: instructions in
/// single-assignment form that call only callables of the program without a body, never the
/// entry callable, and one return at the end.
pub open spec fn is_straight_line(program: ProgramModel) -> bool {
    exists|block: u32| #[trigger] runs_block(program, block)
}

/// Whether the entry callable runs the given block, the block is the only one, and no other
/// callable has a body.
pub open spec fn runs_block(program: ProgramModel, block: u32) -> bool {
    let instructions = program.blocks[block];
    &&& program.callables.contains_key(program.entry)
    &&& program.callables[program.entry] == entry_callable(block)
    &&& program.blocks.dom() =~= Set::empty().insert(block)
    &&& instructions.len() > 0
    &&& instructions.last() == InstructionModel::Return
    &&& block_valid(instructions.drop_last(), program.callables, u32::MAX)
    &&& forall|i: int|
        0 <= i < instructions.len() ==> !calls(#[trigger] instructions[i], program.entry)
    &&& forall|id: CallableId| #[trigger]
        program.callables.contains_key(id) && id != program.entry ==> program.callables[id].body
            is None
}

/// Every generated program is a single block in single-assignment form that ends with its only
/// return and does not call itself.
pub proof fn law_program_is_straight_line(inputs: InputsModel, depth: nat, package: PackageId)
    ensures
        evaluate(inputs, depth, package) matches OutcomeModel::Complete(program)
            ==> is_straight_line(program),
{
    if let OutcomeModel::Complete(program) = evaluate(inputs, depth, package) {
        let entry = inputs.store.package(package)->Some_0.entry->Some_0;
        lemma_initial_state(inputs, package);
        lemma_visit_expr(inputs, depth, initial_state(package), entry);
        let st = visit_expr(inputs, depth, initial_state(package), entry)->Ok_0;
        let block = st.context.current_block;
        assert(program.blocks.dom() =~= Set::empty().insert(block));
        assert(program.blocks[block].drop_last() =~= st.instructions());
        lemma_block_weaken(
            st.instructions(),
            st.program.callables,
            st.program.callables,
            st.resources.next_var,
            u32::MAX,
        );
        assert forall|i: int| 0 <= i < program.blocks[block].len() implies !calls(
            #[trigger] program.blocks[block][i],
            program.entry,
        ) by {
            if i < st.instructions().len() {
                assert(instruction_valid(
                    st.instructions(),
                    i,
                    st.program.callables,
                    st.resources.next_var,
                ));
            }
        }
        assert(runs_block(program, block));
    }
}

/// In every generated program the callables other than the entry callable have different names.
pub proof fn law_callable_names_differ(
    inputs: InputsModel,
    depth: nat,
    package: PackageId,
    a: CallableId,
    b: CallableId,
)
    requires
        a != b,
    ensures
        evaluate(inputs, depth, package) matches OutcomeModel::Complete(program) ==> {
            program.callables.contains_key(a) && program.callables.contains_key(b) && a
                != program.entry && b != program.entry ==> program.callables[a].name
                != program.callables[b].name
        },
{
    if let OutcomeModel::Complete(program) = evaluate(inputs, depth, package) {
        let entry = inputs.store.package(package)->Some_0.entry->Some_0;
        lemma_initial_state(inputs, package);
        lemma_visit_expr(inputs, depth, initial_state(package), entry);
    }
}

/// An entry expression that is classical generates no instruction but the return. The first
/// reply decides how its evaluation ends, and nothing but that reply is asked for.
pub proof fn law_classical_entry_generates_nothing(
    inputs: InputsModel,
    depth: nat,
    package: PackageId,
    entry: ExprId,
)
    requires
        inputs.store.package(package) matches Some(p) && p.entry == Some(entry),
        inputs.compute_properties.expr(package, entry) matches Some(kind) && kind is Classical,
        inputs.store.expr(package, entry) is Some,
        depth > 0,
    ensures
        inputs.replies.len() == 0 ==> evaluate(inputs, depth, package) matches
            OutcomeModel::Stopped(Stop::Pending(_)),
        inputs.replies.len() > 0 ==> evaluate(inputs, depth, package) == (match inputs.replies[0] {
            ClassicalReplyModel::Returned(_) => OutcomeModel::Complete(
                initial_state(package).emit(InstructionModel::Return).program,
            ),
            ClassicalReplyModel::Failed(error) => OutcomeModel::Failed(
                ErrorModel::EvaluationFailed(error),
            ),
            ClassicalReplyModel::Interrupted => OutcomeModel::Stopped(
                Stop::Fault(Fault::NoValueReturned),
            ),
        }),
{
}

/// An expression is evaluated while there is no error; it then either leaves its value in the
/// current scope or leaves an error.
pub proof fn law_value_or_error(inputs: InputsModel, depth: nat, st: StateModel, id: ExprId)
    requires
        state_valid(inputs, st),
        st.errors.len() == 0,
    ensures
        visit_expr(inputs, depth, st, id) matches Ok(st1) ==> {
            st1.scope().expr_values.contains_key(id) || st1.errors.len() > 0
        },
{
    lemma_visit_expr(inputs, depth, st, id);
}

/// A call of a specialization that runs to its end leaves the scopes of its callers, and the
/// block that receives instructions, as they were.
pub proof fn law_call_keeps_callers(
    inputs: InputsModel,
    depth: nat,
    st: StateModel,
    id: StoreItemId,
    functors: FunctorApp,
    decl: CallableDecl,
    specializations: Specializations,
)
    requires
        state_valid(inputs, st),
        inputs.store.global(id) == Some(Global::Callable(decl)),
        decl.implementation == CallableImpl::Spec(specializations),
    ensures
        call_spec(inputs, depth, st, id, functors, decl, specializations) matches Ok((st1, _))
            ==> st1.context.scopes == st.context.scopes && st1.context.current_block
            == st.context.current_block,
{
    lemma_call_spec(inputs, depth, st, id, functors, decl, specializations);
}

/// A call has an identifier that no call before it had: it is above those of the calls that are
/// running, and stays below that of every call that starts later.
pub proof fn law_calls_are_told_apart(
    inputs: InputsModel,
    st: StateModel,
    id: StoreItemId,
    functors: FunctorApp,
    later: StateModel,
    i: int,
)
    requires
        state_valid(inputs, st),
        st.context.next_scope < usize::MAX,
        continues(st.push_call(id, functors), later),
        0 <= i < st.context.scopes.len(),
    ensures
        st.context.scopes[i].id < st.push_call(id, functors).scope().id,
        st.push_call(id, functors).scope().id < later.context.next_scope,
{
}

/// Evaluation only adds: the instructions, callables and errors of a state are kept, in place,
/// by every state that is reached from it by evaluating an expression.
pub proof fn law_evaluation_only_adds(
    inputs: InputsModel,
    depth: nat,
    st: StateModel,
    id: ExprId,
)
    requires
        state_valid(inputs, st),
    ensures
        visit_expr(inputs, depth, st, id) matches Ok(st1) ==> {
            &&& st.instructions().is_prefix_of(st1.instructions())
            &&& st.program.callables.submap_of(st1.program.callables)
            &&& st.errors.is_prefix_of(st1.errors)
            &&& st.next_reply <= st1.next_reply
        },
{
    lemma_visit_expr(inputs, depth, st, id);
}

/// Whether two states differ at most in the local variables of the current scope.
pub open spec fn same_but_locals(a: StateModel, b: StateModel) -> bool {
    &&& a.context.scopes.len() > 0
    &&& a.context.scopes.len() == b.context.scopes.len()
    &&& b == StateModel {
        context: a.context.with_current_scope(
            ScopeModel { local_vars: b.scope().local_vars, ..a.scope() },
        ),
        ..a
    }
}

/// Whether a pattern, down to a nesting depth, binds a local variable.
pub open spec fn binds_within(
    store: PackageStore,
    package: PackageId,
    depth: nat,
    pat: PatId,
    var: LocalVarId,
) -> bool
    decreases depth,
{
    if depth == 0 {
        false
    } else {
        match store.pat(package, pat) {
            None => false,
            Some(pat) => match pat.kind {
                PatKind::Discard => false,
                PatKind::Bind(ident) => ident.id == var,
                PatKind::Tuple(pats) => exists|i: int|
                    0 <= i < pats@.len() && binds_within(
                        store,
                        package,
                        (depth - 1) as nat,
                        #[trigger] pats@[i],
                        var,
                    ),
            },
        }
    }
}

/// Whether a local variable occurs in a pattern.
pub open spec fn binds(
    store: PackageStore,
    package: PackageId,
    pat: PatId,
    var: LocalVarId,
) -> bool {
    exists|depth: nat| binds_within(store, package, depth, pat, var)
}

/// Whether a local variable is the same in two states: it has the same value, or none.
pub open spec fn same_local(a: StateModel, b: StateModel, var: LocalVarId) -> bool {
    a.scope().local_vars.get(var) == b.scope().local_vars.get(var)
}

/// Binding an expression to a pattern changes nothing but the local variables of the current
/// scope, and of these only the ones that occur in the pattern.
pub proof fn law_binding_changes_locals_only(
    inputs: InputsModel,
    depth: nat,
    st: StateModel,
    pat: PatId,
    expr: ExprId,
)
    requires
        st.context.scopes.len() > 0,
    ensures
        bind_expr_to_pat(inputs, depth, st, pat, expr) matches Ok(st1) ==> {
            &&& same_but_locals(st, st1)
            &&& forall|var: LocalVarId|
                !binds(inputs.store, st.package(), pat, var) ==> #[trigger] same_local(
                    st,
                    st1,
                    var,
                )
        },
{
    lemma_binding(inputs, depth, st, pat, expr);
    if let Ok(st1) = bind_expr_to_pat(inputs, depth, st, pat, expr) {
        assert forall|var: LocalVarId|
            !binds(inputs.store, st.package(), pat, var) implies #[trigger] same_local(
            st,
            st1,
            var,
        ) by {
            assert(!binds_within(inputs.store, st.package(), depth, pat, var));
        }
    }
}

proof fn lemma_binding(
    inputs: InputsModel,
    depth: nat,
    st: StateModel,
    pat: PatId,
    expr: ExprId,
)
    requires
        st.context.scopes.len() > 0,
    ensures
        bind_expr_to_pat(inputs, depth, st, pat, expr) matches Ok(st1) ==> {
            &&& same_but_locals(st, st1)
            &&& forall|var: LocalVarId|
                !binds_within(inputs.store, st.package(), depth, pat, var)
                    ==> #[trigger] same_local(st, st1, var)
        },
    decreases depth, 0int, 0int,
{
    if let Ok(st1) = bind_expr_to_pat(inputs, depth, st, pat, expr) {
        match inputs.store.pat(st.package(), pat)->Some_0.kind {
            PatKind::Tuple(pats) => {
                if let ExprKind::Tuple(exprs) = inputs.store.expr(
                    st.package(),
                    expr,
                )->Some_0.kind {
                    let inner = (depth - 1) as nat;
                    lemma_binding_all(inputs, inner, st, pats@, exprs@, 0);
                    assert forall|var: LocalVarId|
                        !binds_within(
                            inputs.store,
                            st.package(),
                            depth,
                            pat,
                            var,
                        ) implies #[trigger] same_local(st, st1, var) by {
                        assert forall|j: int| 0 <= j < pats@.len() implies !binds_within(
                            inputs.store,
                            st.package(),
                            inner,
                            #[trigger] pats@[j],
                            var,
                        ) by {}
                    }
                }
            },
            PatKind::Bind(_) => {},
            PatKind::Discard => {
                assert(st1.context.scopes =~= st.context.with_current_scope(st.scope()).scopes);
            },
        }
    }
}

proof fn lemma_binding_all(
    inputs: InputsModel,
    depth: nat,
    st: StateModel,
    pats: Seq<PatId>,
    exprs: Seq<ExprId>,
    i: int,
)
    requires
        st.context.scopes.len() > 0,
        0 <= i,
    ensures
        bind_exprs_to_pats(inputs, depth, st, pats, exprs, i) matches Ok(st1) ==> {
            &&& same_but_locals(st, st1)
            &&& forall|var: LocalVarId|
                (forall|j: int|
                    i <= j < pats.len() ==> !binds_within(
                        inputs.store,
                        st.package(),
                        depth,
                        #[trigger] pats[j],
                        var,
                    )) ==> #[trigger] same_local(st, st1, var)
        },
    decreases depth, 1int, pats.len() - i,
{
    if let Ok(st2) = bind_exprs_to_pats(inputs, depth, st, pats, exprs, i) {
        if i < pats.len() {
            lemma_binding(inputs, depth, st, pats[i], exprs[i]);
            let st1 = bind_expr_to_pat(inputs, depth, st, pats[i], exprs[i])->Ok_0;
            lemma_binding_all(inputs, depth, st1, pats, exprs, i + 1);
            assert(st2.context.scopes =~= st.context.with_current_scope(
                ScopeModel { local_vars: st2.scope().local_vars, ..st.scope() },
            ).scopes);
            assert forall|var: LocalVarId|
                (forall|j: int|
                    i <= j < pats.len() ==> !binds_within(
                        inputs.store,
                        st.package(),
                        depth,
                        #[trigger] pats[j],
                        var,
                    )) implies #[trigger] same_local(st, st2, var) by {
                assert(!binds_within(inputs.store, st.package(), depth, pats[i], var));
                assert(same_local(st, st1, var));
                assert(same_local(st1, st2, var));
            }
        } else {
            assert(st2.context.scopes =~= st.context.with_current_scope(st.scope()).scopes);
        }
    }
}

/// A callable that is in the program is found again under its name, and nothing is added.
pub proof fn law_callable_is_found_again(
    st: StateModel,
    callable: CallableModel,
    again: CallableModel,
)
    requires
        again.name == callable.name,
    ensures
        get_or_insert_callable(st, callable) matches Ok((st1, id)) ==> get_or_insert_callable(
            st1,
            again,
        ) == Ok::<(StateModel, CallableId), Stop>((st1, id)),
{
}

/// A callable that was added once is found under its name ever after, and nothing is added.
pub proof fn law_callable_stays_found(
    st: StateModel,
    callable: CallableModel,
    later: StateModel,
    again: CallableModel,
)
    requires
        get_or_insert_callable(st, callable) matches Ok((st1, _)) && continues(st1, later),
        again.name == callable.name,
    ensures
        get_or_insert_callable(later, again) == Ok::<(StateModel, CallableId), Stop>(
            (later, get_or_insert_callable(st, callable)->Ok_0.1),
        ),
{
    let (st1, _) = get_or_insert_callable(st, callable)->Ok_0;
    assert(st1.callable_ids.dom().contains(callable.name));
    assert(later.callable_ids.dom().contains(callable.name));
}

/// Two measurements, one after the other, give different results.
pub proof fn law_measurement_results_differ(
    first: StateModel,
    second: StateModel,
    callable_a: CallableModel,
    callable_b: CallableModel,
    args_a: ValueModel,
    args_b: ValueModel,
)
    requires
        measure_qubit(first, callable_a, args_a) matches Ok((st, _)) && continues(st, second),
    ensures
        measure_qubit(second, callable_b, args_b) matches Ok((_, b)) ==> b != measure_qubit(
            first,
            callable_a,
            args_a,
        )->Ok_0.1,
{
}

/// The qubit that is allocated was not in use; afterwards it is, and the others are as before.
pub proof fn law_allocation_takes_a_free_qubit(resources: ResourcesModel, other: int)
    requires
        other != resources.free_qubit(),
    ensures
        !resources.in_use(resources.free_qubit()),
        resources.allocate_qubit().in_use(resources.free_qubit()),
        resources.allocate_qubit().in_use(other) == resources.in_use(other),
{
    lemma_first_free(resources.qubits_in_use, 0);
}

/// No new qubit is taken while an allocated one is free.
pub proof fn law_free_qubits_are_reused(resources: ResourcesModel, qubit: int)
    requires
        0 <= qubit < resources.qubits_in_use.len(),
        !resources.in_use(qubit),
    ensures
        resources.free_qubit() <= qubit,
        resources.allocate_qubit().qubits_in_use.len() == resources.qubits_in_use.len(),
{
    lemma_first_free(resources.qubits_in_use, 0);
}

/// Releasing a qubit undoes its allocation: the same qubits are in use as before.
pub proof fn law_release_undoes_allocation(resources: ResourcesModel, qubit: int)
    ensures
        resources.allocate_qubit().release_qubit(resources.free_qubit()).in_use(qubit)
            == resources.in_use(qubit),
{
    lemma_first_free(resources.qubits_in_use, 0);
}

} // verus!
