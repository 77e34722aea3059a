//! The partial evaluator.

use crate::callable_ids::{callable_ids, get_callable_id, insert_callable_id, new_callable_ids};
use crate::classical::{replies_model, ClassicalReply, ClassicalRequest, ClassicalTarget};
use crate::error::{Error, ErrorModel, Fault, Stop};
use crate::evaluation_context::EvaluationContext;
use crate::fir::{
    BinOp, BlockId, CallableDecl, CallableImpl, ExecGraphId, ExecGraphRange, Expr, ExprId,
    ExprKind, FunctorApp, Global, Ident, PackageId, PackageStore, PatId, PatKind, Res, SpecDecl,
    Specializations, StmtId, StmtKind, StoreItemId,
};
use crate::lowering::{
    create_intrinsic_callable, describe_bin_op, get_spec_decl, map_eval_value_to_rir_operand,
    map_fir_type_to_rir_type, mresetz_callable, mz_callable, name_is, read_result_callable,
    resolve_call_arg_operands,
};
use crate::management::ResourceManager;
use crate::rca::{ComputeKind, PackageStoreComputeProperties};
use crate::rir::{
    Block, Callable, CallableId, CallableType, ConditionCode, Instruction, InstructionModel,
    Operand, Program, Ty, Variable,
};
use crate::semantics;
use crate::semantics::{Flow, InputsModel, OutcomeModel, StateModel};
use crate::validity;
use crate::validity::state_valid;
use crate::value::{lemma_tuple_model, values_model, MeasurementResult, Value, ValueModel};
use rustc_hash::FxHashMap;
use vstd::prelude::*;

verus! {

/// What an evaluation reads and never changes.
#[derive(Copy, Clone)]
pub struct Inputs<'a> {
    pub package_store: &'a PackageStore,
    pub compute_properties: &'a PackageStoreComputeProperties,
    /// The replies of the classical evaluator, in the order of the requests.
    pub replies: &'a Vec<ClassicalReply>,
}

impl<'a> View for Inputs<'a> {
    type V = InputsModel;

    open spec fn view(&self) -> InputsModel {
        InputsModel {
            store: *self.package_store,
            compute_properties: *self.compute_properties,
            replies: replies_model(self.replies@),
        }
    }
}

/// How a whole evaluation ends.
#[derive(Debug)]
pub enum Outcome {
    /// The generated program.
    Complete(Program),
    /// The first error.
    Failed(Error),
    Stopped(Stop),
}

impl View for Outcome {
    type V = OutcomeModel;

    open spec fn view(&self) -> OutcomeModel {
        match *self {
            Outcome::Complete(program) => OutcomeModel::Complete(program@),
            Outcome::Failed(error) => OutcomeModel::Failed(error@),
            Outcome::Stopped(stop) => OutcomeModel::Stopped(stop),
        }
    }
}

/// Generates the program of a package's entry expression.
///
/// The classical evaluator is consulted through `replies`: they answer its requests in order.
/// When they run out, the outcome is the next request, and the evaluation is to be repeated with
/// its reply added. Expressions and patterns that nest deeper than `depth_limit` are not
/// evaluated.
pub fn partially_evaluate(
    package_id: PackageId,
    package_store: &PackageStore,
    compute_properties: &PackageStoreComputeProperties,
    replies: &Vec<ClassicalReply>,
    depth_limit: usize,
) -> (outcome: Outcome)
    ensures
        outcome@ == semantics::evaluate(
            (InputsModel {
                store: *package_store,
                compute_properties: *compute_properties,
                replies: replies_model(replies@),
            }),
            depth_limit as nat,
            package_id,
        ),
{
    let inputs = Inputs { package_store, compute_properties, replies };
    let evaluator = PartialEvaluator::new(package_id, inputs);
    evaluator.eval(depth_limit)
}

/// The state of an evaluation, and what it reads.
struct PartialEvaluator<'a> {
    inputs: Inputs<'a>,
    next_reply: usize,
    resource_manager: ResourceManager,
    callables_map: FxHashMap<String, CallableId>,
    eval_context: EvaluationContext,
    program: Program,
    errors: Vec<Error>,
}

impl<'a> View for PartialEvaluator<'a> {
    type V = StateModel;

    closed spec fn view(&self) -> StateModel {
        StateModel {
            next_reply: self.next_reply as nat,
            resources: self.resource_manager@,
            callable_ids: callable_ids(self.callables_map),
            context: self.eval_context@,
            program: self.program@,
            errors: self.errors@.map_values(|error: Error| error@),
        }
    }
}

/// What the result of evaluating an expression is.
spec fn result_model(result: Result<Value, Error>) -> Result<ValueModel, ErrorModel> {
    match result {
        Ok(value) => Ok(value@),
        Err(error) => Err(error@),
    }
}

/// Whether a step ends as described: in a state with a result, or with a stop.
spec fn flow_is<T>(flow: Flow<T>, st: StateModel, outcome: Result<T, Stop>) -> bool {
    match outcome {
        Ok(value) => flow == Ok::<(StateModel, T), Stop>((st, value)),
        Err(stop) => flow == Err::<(StateModel, T), Stop>(stop),
    }
}

/// Whether a step without a result ends as described.
spec fn state_is(
    flow: Result<StateModel, Stop>,
    st: StateModel,
    outcome: Result<(), Stop>,
) -> bool {
    match outcome {
        Ok(()) => flow == Ok::<StateModel, Stop>(st),
        Err(stop) => flow == Err::<StateModel, Stop>(stop),
    }
}

spec fn value_outcome(result: Result<Value, Stop>) -> Result<ValueModel, Stop> {
    match result {
        Ok(value) => Ok(value@),
        Err(stop) => Err(stop),
    }
}

spec fn expr_outcome(result: Result<Result<Value, Error>, Stop>) -> Result<
    Result<ValueModel, ErrorModel>,
    Stop,
> {
    match result {
        Ok(result) => Ok(result_model(result)),
        Err(stop) => Err(stop),
    }
}

spec fn try_outcome(result: Result<Option<Value>, Stop>) -> Result<Option<ValueModel>, Stop> {
    match result {
        Ok(Some(value)) => Ok(Some(value@)),
        Ok(None) => Ok(None),
        Err(stop) => Err(stop),
    }
}

impl<'a> PartialEvaluator<'a> {
    spec fn valid(self) -> bool {
        state_valid(self.inputs@, self@)
    }

    /// An evaluator whose program consists of the entry callable and its empty block.
    fn new(entry_package_id: PackageId, inputs: Inputs<'a>) -> (evaluator: Self)
        ensures
            evaluator.inputs == inputs,
            evaluator@ == semantics::initial_state(entry_package_id),
    {
        let mut resource_manager = ResourceManager::new();
        let mut program = Program::new();
        let entry_block_id = resource_manager.next_block().unwrap();
        let entry_block = Block(Vec::new());
        program.insert_block(entry_block_id, entry_block);
        let entry_point_id = resource_manager.next_callable().unwrap();
        let entry_point = Callable {
            name: "main".to_owned(),
            input_type: Vec::new(),
            output_type: None,
            body: Some(entry_block_id),
            call_type: CallableType::Regular,
        };
        program.insert_callable(entry_point_id, entry_point);
        program.entry = entry_point_id;
        let evaluator = PartialEvaluator {
            inputs,
            next_reply: 0,
            resource_manager,
            callables_map: new_callable_ids(),
            eval_context: EvaluationContext::new(entry_package_id, entry_block_id),
            program,
            errors: Vec::new(),
        };
        proof {
            let model = semantics::initial_state(entry_package_id);
            assert(entry_point@ =~= semantics::entry_callable(0));
            assert(entry_block@ =~= Seq::<InstructionModel>::empty());
            assert(evaluator@.program =~= model.program);
            assert(evaluator@.errors =~= model.errors);
            assert(evaluator@.callable_ids =~= model.callable_ids);
        }
        evaluator
    }

    /// Evaluates the entry expression and gives the program, or the first error.
    fn eval(self, depth: usize) -> (outcome: Outcome)
        requires
            self@ == semantics::initial_state(self@.package()),
        ensures
            outcome@ == semantics::evaluate(self.inputs@, depth as nat, self@.package()),
    {
        let mut evaluator = self;
        let current_package = evaluator.get_current_package_id();
        let entry_package = match evaluator.inputs.package_store.get(current_package) {
            Some(entry_package) => entry_package,
            None => {
                return Outcome::Stopped(Stop::Fault(Fault::MissingPackage));
            },
        };
        let entry_expr_id = match entry_package.entry {
            Some(entry_expr_id) => entry_expr_id,
            None => {
                return Outcome::Stopped(Stop::Fault(Fault::NoEntryExpression));
            },
        };
        proof {
            validity::lemma_initial_state(evaluator.inputs@, current_package);
            validity::lemma_visit_expr(evaluator.inputs@, depth as nat, evaluator@, entry_expr_id);
        }
        match evaluator.visit_expr(depth, entry_expr_id) {
            Ok(()) => {},
            Err(stop) => {
                return Outcome::Stopped(stop);
            },
        }
        let ghost visited = evaluator@;
        if evaluator.errors.len() > 0 {
            let error = evaluator.errors.remove(0);
            assert(visited.errors[0] == error@);
            Outcome::Failed(error)
        } else {
            let current_block = evaluator.eval_context.current_block();
            evaluator.program.push_instruction(current_block, Instruction::Return);
            Outcome::Complete(evaluator.program)
        }
    }

    fn get_current_package_id(&self) -> (id: PackageId)
        requires
            self@.context.scopes.len() > 0,
        ensures
            id == self@.package(),
    {
        self.eval_context.get_current_scope().package_id()
    }

    /// Adds an instruction to the current block.
    fn emit(&mut self, instruction: Instruction)
        requires
            old(self)@.program.blocks.contains_key(old(self)@.context.current_block),
        ensures
            final(self).inputs == old(self).inputs,
            final(self)@ == old(self)@.emit(instruction@),
    {
        self.program.push_instruction(self.eval_context.current_block(), instruction);
    }

    fn push_error(&mut self, error: Error)
        ensures
            final(self).inputs == old(self).inputs,
            final(self)@ == old(self)@.push_error(error@),
    {
        self.errors.push(error);
        assert(self@.errors =~= old(self)@.errors.push(error@));
    }

    /// The callable of that name in the program; the given one is added when there is none.
    fn get_or_insert_callable(&mut self, callable: Callable) -> (id: Result<CallableId, Stop>)
        ensures
            final(self).inputs == old(self).inputs,
            flow_is(
                semantics::get_or_insert_callable(old(self)@, callable@),
                final(self)@,
                id,
            ),
    {
        match get_callable_id(&self.callables_map, &callable.name) {
            Some(id) => Ok(id),
            None => {
                let callable_id = match self.resource_manager.next_callable() {
                    Some(callable_id) => callable_id,
                    None => {
                        return Err(Stop::Fault(Fault::IdentifiersExhausted));
                    },
                };
                let callable_name = callable.name.clone();
                insert_callable_id(&mut self.callables_map, callable_name, callable_id);
                self.program.insert_callable(callable_id, callable);
                Ok(callable_id)
            },
        }
    }

    /// A variable that no instruction has defined.
    fn next_var(&mut self, ty: Ty) -> (variable: Result<Variable, Stop>)
        ensures
            final(self).inputs == old(self).inputs,
            flow_is(semantics::next_var(old(self)@, ty), final(self)@, variable),
    {
        match self.resource_manager.next_var() {
            Some(variable_id) => Ok(Variable { variable_id, ty }),
            None => Err(Stop::Fault(Fault::IdentifiersExhausted)),
        }
    }

    /// A measurement result as a Boolean operand.
    fn eval_result_as_bool_operand(&mut self, result: MeasurementResult) -> (operand: Result<
        Operand,
        Stop,
    >)
        requires
            old(self)@.program.blocks.contains_key(old(self)@.context.current_block),
        ensures
            final(self).inputs == old(self).inputs,
            operand is Ok ==> final(self)@.program.blocks.contains_key(
                final(self)@.context.current_block,
            ),
            flow_is(
                semantics::eval_result_as_bool_operand(old(self)@, result),
                final(self)@,
                operand,
            ),
    {
        let result_operand = match map_eval_value_to_rir_operand(&Value::Result(result)) {
            Ok(result_operand) => result_operand,
            Err(fault) => {
                return Err(Stop::Fault(fault));
            },
        };
        match result {
            MeasurementResult::Id(_) => {
                let read_result_callable_id = match self.get_or_insert_callable(
                    read_result_callable(),
                ) {
                    Ok(id) => id,
                    Err(stop) => {
                        return Err(stop);
                    },
                };
                let variable = match self.next_var(Ty::Boolean) {
                    Ok(variable) => variable,
                    Err(stop) => {
                        return Err(stop);
                    },
                };
                let args = vec![result_operand];
                assert(args@ =~= seq![result_operand]);
                self.emit(Instruction::Call(read_result_callable_id, args, Some(variable)));
                Ok(Operand::Variable(variable))
            },
            MeasurementResult::Val(_) => Ok(result_operand),
        }
    }

    /// An operand of a comparison.
    fn comparison_operand(&mut self, value: &Value) -> (operand: Result<Operand, Stop>)
        requires
            old(self)@.program.blocks.contains_key(old(self)@.context.current_block),
        ensures
            final(self).inputs == old(self).inputs,
            operand is Ok ==> final(self)@.program.blocks.contains_key(
                final(self)@.context.current_block,
            ),
            flow_is(semantics::comparison_operand(old(self)@, value@), final(self)@, operand),
    {
        if let Value::Result(result) = value {
            self.eval_result_as_bool_operand(*result)
        } else {
            match map_eval_value_to_rir_operand(value) {
                Ok(operand) => Ok(operand),
                Err(fault) => Err(Stop::Fault(fault)),
            }
        }
    }

    fn allocate_qubit(&mut self) -> (value: Value)
        ensures
            final(self).inputs == old(self).inputs,
            flow_is(
                semantics::allocate_qubit(old(self)@),
                final(self)@,
                Ok::<ValueModel, Stop>(value@),
            ),
    {
        let qubit = self.resource_manager.allocate_qubit();
        Value::Qubit(qubit)
    }

    fn release_qubit(&mut self, args_value: &Value) -> (value: Result<Value, Stop>)
        ensures
            final(self).inputs == old(self).inputs,
            flow_is(
                semantics::release_qubit(old(self)@, args_value@),
                final(self)@,
                value_outcome(value),
            ),
    {
        let qubit = match args_value {
            Value::Qubit(qubit) => *qubit,
            _ => {
                return Err(Stop::Fault(Fault::ReleasedNotAQubit));
            },
        };
        if !self.resource_manager.knows_qubit(qubit) {
            return Err(Stop::Fault(Fault::ReleasedUnknownQubit));
        }
        self.resource_manager.release_qubit(qubit);
        Ok(Value::unit())
    }

    fn measure_qubit(&mut self, measure_callable: Callable, args_value: &Value) -> (value: Result<
        Value,
        Stop,
    >)
        requires
            old(self)@.program.blocks.contains_key(old(self)@.context.current_block),
        ensures
            final(self).inputs == old(self).inputs,
            flow_is(
                semantics::measure_qubit(old(self)@, measure_callable@, args_value@),
                final(self)@,
                value_outcome(value),
            ),
    {
        match args_value {
            Value::Qubit(_) => {},
            _ => {
                return Err(Stop::Fault(Fault::MeasuredNotAQubit));
            },
        }
        let qubit_operand = match map_eval_value_to_rir_operand(args_value) {
            Ok(qubit_operand) => qubit_operand,
            Err(fault) => {
                return Err(Stop::Fault(fault));
            },
        };
        let result = match self.resource_manager.next_result() {
            Some(result) => result,
            None => {
                return Err(Stop::Fault(Fault::IdentifiersExhausted));
            },
        };
        let result_value = Value::Result(result);
        let result_operand = match map_eval_value_to_rir_operand(&result_value) {
            Ok(result_operand) => result_operand,
            Err(fault) => {
                return Err(Stop::Fault(fault));
            },
        };
        let measure_callable_id = match self.get_or_insert_callable(measure_callable) {
            Ok(id) => id,
            Err(stop) => {
                return Err(stop);
            },
        };
        let args = vec![qubit_operand, result_operand];
        assert(args@ =~= seq![qubit_operand, result_operand]);
        self.emit(Instruction::Call(measure_callable_id, args, None));
        Ok(result_value)
    }

    /// Calls an intrinsic.
    fn eval_expr_call_to_intrinsic(
        &mut self,
        callable_decl: &CallableDecl,
        args_value: Value,
    ) -> (value: Result<Value, Stop>)
        requires
            old(self)@.program.blocks.contains_key(old(self)@.context.current_block),
        ensures
            final(self).inputs == old(self).inputs,
            flow_is(
                semantics::call_intrinsic(old(self)@, *callable_decl, args_value@),
                final(self)@,
                value_outcome(value),
            ),
    {
        let name = &callable_decl.name.name;
        if name_is(name, "__quantum__rt__qubit_allocate") {
            Ok(self.allocate_qubit())
        } else if name_is(name, "__quantum__rt__qubit_release") {
            self.release_qubit(&args_value)
        } else if name_is(name, "__quantum__qis__m__body") {
            self.measure_qubit(mz_callable(), &args_value)
        } else if name_is(name, "__quantum__qis__mresetz__body") {
            self.measure_qubit(mresetz_callable(), &args_value)
        } else {
            self.eval_expr_call_to_intrinsic_qis(callable_decl, args_value)
        }
    }

    /// Calls an intrinsic of the same name in the generated program.
    fn eval_expr_call_to_intrinsic_qis(
        &mut self,
        callable_decl: &CallableDecl,
        args_value: Value,
    ) -> (value: Result<Value, Stop>)
        requires
            old(self)@.program.blocks.contains_key(old(self)@.context.current_block),
        ensures
            final(self).inputs == old(self).inputs,
            flow_is(
                semantics::call_intrinsic_qis(old(self)@, *callable_decl, args_value@),
                final(self)@,
                value_outcome(value),
            ),
    {
        let callable = match create_intrinsic_callable(callable_decl) {
            Ok(callable) => callable,
            Err(fault) => {
                return Err(Stop::Fault(fault));
            },
        };
        let callable_id = match self.get_or_insert_callable(callable) {
            Ok(id) => id,
            Err(stop) => {
                return Err(stop);
            },
        };
        let args = match resolve_call_arg_operands(args_value) {
            Ok(args) => args,
            Err(fault) => {
                return Err(Stop::Fault(fault));
            },
        };
        self.emit(Instruction::Call(callable_id, args, None));
        Ok(Value::unit())
    }

    /// The specialization that the current scope runs; the entry scope runs none.
    fn get_current_scope_spec_decl(&self) -> (decl: Option<SpecDecl>)
        requires
            self.valid(),
        ensures
            decl == (match self@.scope().callable {
                Some((item, functors)) => semantics::running_spec_decl(
                    self.inputs@.store,
                    self@.package(),
                    item,
                    functors,
                ),
                None => None,
            }),
            decl is Some <==> self@.scope().callable is Some,
    {
        proof {
            let last = self@.context.scopes.len() - 1;
            assert(semantics::scope_resolves(self.inputs@.store, self@.context.scopes[last]));
        }
        let current_scope = self.eval_context.get_current_scope();
        let (local_item_id, functor_app) = match current_scope.callable() {
            Some(callable) => callable,
            None => {
                return None;
            },
        };
        let store_item_id = StoreItemId {
            package: current_scope.package_id(),
            item: local_item_id,
        };
        match self.inputs.package_store.get_global(store_item_id) {
            Some(Global::Callable(callable_decl)) => match &callable_decl.implementation {
                CallableImpl::Spec(specializations) => match get_spec_decl(
                    specializations,
                    functor_app,
                ) {
                    Ok(decl) => Some(decl),
                    Err(_) => None,
                },
                CallableImpl::Intrinsic => None,
            },
            _ => None,
        }
    }

    /// The execution graph of the current scope.
    fn get_current_scope_exec_graph(&self) -> (graph: ExecGraphId)
        requires
            self.valid(),
        ensures
            graph == semantics::scope_exec_graph(self.inputs@.store, self@.scope()),
    {
        proof {
            let last = self@.context.scopes.len() - 1;
            assert(semantics::scope_resolves(self.inputs@.store, self@.context.scopes[last]));
        }
        match self.get_current_scope_spec_decl() {
            Some(spec_decl) => spec_decl.exec_graph,
            None => {
                let package_id = self.get_current_package_id();
                self.inputs.package_store.get(package_id).unwrap().entry_exec_graph
            },
        }
    }

    /// What the classical evaluator is asked now.
    fn classical_request(&self, target: ClassicalTarget, range: ExecGraphRange) -> (request:
        ClassicalRequest)
        requires
            self.valid(),
        ensures
            request == semantics::classical_request(self.inputs@, self@, target, range),
    {
        ClassicalRequest {
            scope: self.eval_context.get_current_scope().id(),
            package: self.get_current_package_id(),
            exec_graph: self.get_current_scope_exec_graph(),
            range,
            target,
        }
    }

    /// The next reply, as the answer to a request.
    fn take_reply(&mut self, request: ClassicalRequest) -> (reply: Result<&'a ClassicalReply, Stop>)
        ensures
            final(self).inputs == old(self).inputs,
            flow_is(
                semantics::take_reply(old(self).inputs@, old(self)@, request),
                final(self)@,
                match reply {
                    Ok(reply) => Ok(reply@),
                    Err(stop) => Err(stop),
                },
            ),
    {
        if self.next_reply < self.inputs.replies.len() {
            let reply = &self.inputs.replies[self.next_reply];
            self.next_reply = self.next_reply + 1;
            Ok(reply)
        } else {
            Err(Stop::Pending(request))
        }
    }

    /// Has the classical evaluator compute the value of an expression.
    fn eval_classical_expr(&mut self, expr_id: ExprId, expr: &'a Expr) -> (result: Result<
        Result<Value, Error>,
        Stop,
    >)
        requires
            old(self).valid(),
        ensures
            final(self).inputs == old(self).inputs,
            flow_is(
                semantics::eval_classical_expr(old(self).inputs@, old(self)@, expr_id, *expr),
                final(self)@,
                expr_outcome(result),
            ),
    {
        let request = self.classical_request(
            ClassicalTarget::Expr(expr_id),
            expr.exec_graph_range,
        );
        match self.take_reply(request) {
            Ok(ClassicalReply::Returned(value)) => Ok(Ok(value.duplicate())),
            Ok(ClassicalReply::Failed(error)) => Ok(
                Err(Error::EvaluationFailed(error.duplicate())),
            ),
            Ok(ClassicalReply::Interrupted) => Err(Stop::Fault(Fault::NoValueReturned)),
            Err(stop) => Err(stop),
        }
    }

    /// Has the classical evaluator run a statement.
    fn eval_classical_stmt(&mut self, stmt_id: StmtId) -> (result: Result<(), Stop>)
        requires
            old(self).valid(),
        ensures
            final(self).inputs == old(self).inputs,
            state_is(
                semantics::eval_classical_stmt(old(self).inputs@, old(self)@, stmt_id),
                final(self)@,
                result,
            ),
    {
        let package_id = self.get_current_package_id();
        let stmt = match self.inputs.package_store.get_stmt(package_id, stmt_id) {
            Some(stmt) => stmt,
            None => {
                return Err(Stop::Fault(Fault::MissingStmt));
            },
        };
        let request = self.classical_request(
            ClassicalTarget::Stmt(stmt_id),
            stmt.exec_graph_range,
        );
        match self.take_reply(request) {
            Ok(ClassicalReply::Failed(error)) => {
                self.push_error(Error::EvaluationFailed(error.duplicate()));
                Ok(())
            },
            Ok(_) => Ok(()),
            Err(stop) => Err(stop),
        }
    }

    /// Whether a statement is left to the classical evaluator.
    fn is_classical_stmt(&self, stmt_id: StmtId) -> (classical: Result<bool, Stop>)
        requires
            self@.context.scopes.len() > 0,
        ensures
            classical == (match self.inputs@.compute_properties.stmt(self@.package(), stmt_id) {
                Some(kind) => Ok(kind is Classical),
                None => Err(Stop::Fault(Fault::MissingComputeKind)),
            }),
    {
        let package_id = self.get_current_package_id();
        match self.inputs.compute_properties.get_stmt(package_id, stmt_id) {
            Some(ComputeKind::Classical) => Ok(true),
            Some(ComputeKind::Quantum) => Ok(false),
            None => Err(Stop::Fault(Fault::MissingComputeKind)),
        }
    }

    /// What a resolved name stands for.
    fn eval_expr_var(&self, res: &Res) -> (value: Result<Value, Stop>)
        requires
            self@.context.scopes.len() > 0,
        ensures
            match value {
                Ok(value) => semantics::eval_var(self@, *res) == Ok::<ValueModel, Fault>(value@),
                Err(stop) => semantics::eval_var(self@, *res) matches Err(fault) && stop
                    == Stop::Fault(fault),
            },
    {
        match res {
            Res::Unresolved => Err(Stop::Fault(Fault::UnresolvedName)),
            Res::Item(item) => {
                let package = match item.package {
                    Some(package) => package,
                    None => self.get_current_package_id(),
                };
                Ok(
                    Value::Global(
                        StoreItemId { package, item: item.item },
                        FunctorApp { adjoint: false, controlled: 0 },
                    ),
                )
            },
            Res::Local(local_var_id) => match self.eval_context.get_current_scope().get_local_var_value(
                *local_var_id,
            ) {
                Some(value) => Ok(value.duplicate()),
                None => Err(Stop::Fault(Fault::MissingLocalVar)),
            },
        }
    }

    fn bind_value_to_ident(&mut self, ident: &Ident, value: Value)
        requires
            old(self)@.context.scopes.len() > 0,
        ensures
            final(self).inputs == old(self).inputs,
            final(self)@ == old(self)@.insert_local_var(ident.id, value@),
    {
        let scope = self.eval_context.get_current_scope_mut();
        scope.insert_local_var_value(ident.id, value);
    }

    /// Binds the value of an expression to a pattern.
    fn bind_expr_to_pat(&mut self, depth: usize, pat_id: PatId, expr_id: ExprId) -> (result: Result<
        (),
        Stop,
    >)
        requires
            old(self).valid(),
        ensures
            final(self).inputs == old(self).inputs,
            state_is(
                semantics::bind_expr_to_pat(
                    old(self).inputs@,
                    depth as nat,
                    old(self)@,
                    pat_id,
                    expr_id,
                ),
                final(self)@,
                result,
            ),
        decreases depth,
    {
        if depth == 0 {
            return Err(Stop::DepthLimit);
        }
        let package_id = self.get_current_package_id();
        let pat = match self.inputs.package_store.get_pat(package_id, pat_id) {
            Some(pat) => pat,
            None => {
                return Err(Stop::Fault(Fault::MissingPat));
            },
        };
        match &pat.kind {
            PatKind::Bind(ident) => {
                let expr_value = match self.eval_context.get_current_scope().get_expr_value(
                    expr_id,
                ) {
                    Some(value) => value.duplicate(),
                    None => {
                        return Err(Stop::Fault(Fault::MissingExprValue));
                    },
                };
                self.bind_value_to_ident(ident, expr_value);
                Ok(())
            },
            PatKind::Tuple(pats) => {
                let expr = match self.inputs.package_store.get_expr(package_id, expr_id) {
                    Some(expr) => expr,
                    None => {
                        return Err(Stop::Fault(Fault::MissingExpr));
                    },
                };
                let exprs = match &expr.kind {
                    ExprKind::Tuple(exprs) => exprs,
                    _ => {
                        return Err(Stop::Fault(Fault::NotATupleExpression));
                    },
                };
                if pats.len() != exprs.len() {
                    return Err(Stop::Fault(Fault::TupleLengthMismatch));
                }
                let inner: usize = depth - 1;
                let ghost all = semantics::bind_exprs_to_pats(
                    self.inputs@,
                    inner as nat,
                    self@,
                    pats@,
                    exprs@,
                    0,
                );
                let mut i: usize = 0;
                while i < pats.len()
                    invariant
                        i <= pats@.len(),
                        pats@.len() == exprs@.len(),
                        inner < depth,
                        self.valid(),
                        self.inputs == old(self).inputs,
                        all == semantics::bind_exprs_to_pats(
                            self.inputs@,
                            inner as nat,
                            self@,
                            pats@,
                            exprs@,
                            i as int,
                        ),
                        semantics::bind_expr_to_pat(
                            old(self).inputs@,
                            depth as nat,
                            old(self)@,
                            pat_id,
                            expr_id,
                        ) == all,
                    decreases pats@.len() - i,
                {
                    proof {
                        validity::lemma_bind_expr_to_pat(
                            self.inputs@,
                            inner as nat,
                            self@,
                            pats@[i as int],
                            exprs@[i as int],
                        );
                    }
                    match self.bind_expr_to_pat(inner, pats[i], exprs[i]) {
                        Ok(()) => {},
                        Err(stop) => {
                            return Err(stop);
                        },
                    }
                    i += 1;
                }
                Ok(())
            },
            PatKind::Discard => Ok(()),
        }
    }

    /// Evaluates an expression and records its value in the current scope, or the error that it
    /// met.
    fn visit_expr(&mut self, depth: usize, expr_id: ExprId) -> (result: Result<(), Stop>)
        requires
            old(self).valid(),
            old(self)@.errors.len() == 0,
        ensures
            final(self).inputs == old(self).inputs,
            state_is(
                semantics::visit_expr(old(self).inputs@, depth as nat, old(self)@, expr_id),
                final(self)@,
                result,
            ),
        decreases depth, 0int, 0int,
    {
        if depth == 0 {
            return Err(Stop::DepthLimit);
        }
        let package_id = self.get_current_package_id();
        let compute_kind = match self.inputs.compute_properties.get_expr(package_id, expr_id) {
            Some(compute_kind) => compute_kind,
            None => {
                return Err(Stop::Fault(Fault::MissingComputeKind));
            },
        };
        let expr = match self.inputs.package_store.get_expr(package_id, expr_id) {
            Some(expr) => expr,
            None => {
                return Err(Stop::Fault(Fault::MissingExpr));
            },
        };
        proof {
            validity::lemma_eval_expr(self.inputs@, (depth - 1) as nat, self@, *expr);
        }
        let expr_result = match compute_kind {
            ComputeKind::Classical => self.eval_classical_expr(expr_id, expr),
            ComputeKind::Quantum => self.eval_expr(depth - 1, expr),
        };
        match expr_result {
            Ok(Ok(expr_value)) => {
                let scope = self.eval_context.get_current_scope_mut();
                scope.insert_expr_value(expr_id, expr_value);
                Ok(())
            },
            Ok(Err(error)) => {
                self.push_error(error);
                Ok(())
            },
            Err(stop) => Err(stop),
        }
    }

    /// Evaluates an expression and gives its value, or `None` when it met an error.
    fn try_eval_expr(&mut self, depth: usize, expr_id: ExprId) -> (result: Result<
        Option<Value>,
        Stop,
    >)
        requires
            old(self).valid(),
            old(self)@.errors.len() == 0,
        ensures
            final(self).inputs == old(self).inputs,
            result is Ok ==> final(self).valid(),
            result matches Ok(value) ==> {
                &&& value is Some <==> final(self)@.errors.len() == 0
                &&& final(self)@.package() == old(self)@.package()
                &&& old(self).inputs@.store.expr(old(self)@.package(), expr_id) is Some
            },
            flow_is(
                semantics::try_eval_expr(old(self).inputs@, depth as nat, old(self)@, expr_id),
                final(self)@,
                try_outcome(result),
            ),
        decreases depth, 1int, 0int,
    {
        proof {
            validity::lemma_visit_expr(self.inputs@, depth as nat, self@, expr_id);
        }
        match self.visit_expr(depth, expr_id) {
            Ok(()) => {},
            Err(stop) => {
                return Err(stop);
            },
        }
        if self.errors.len() == 0 {
            let expr_value = self.eval_context.get_current_scope().get_expr_value(expr_id).unwrap();
            Ok(Some(expr_value.duplicate()))
        } else {
            Ok(None)
        }
    }

    /// The span of an expression of the current package.
    fn expr_span(&self, expr_id: ExprId) -> (span: crate::fir::Span)
        requires
            self@.context.scopes.len() > 0,
            self.inputs@.store.expr(self@.package(), expr_id) is Some,
        ensures
            span == semantics::expr_span(self.inputs@, self@, expr_id),
    {
        let package_id = self.get_current_package_id();
        self.inputs.package_store.get_expr(package_id, expr_id).unwrap().span
    }

    /// Generates instructions for an expression.
    fn eval_expr(&mut self, depth: usize, expr: &'a Expr) -> (result: Result<
        Result<Value, Error>,
        Stop,
    >)
        requires
            old(self).valid(),
            old(self)@.errors.len() == 0,
        ensures
            final(self).inputs == old(self).inputs,
            flow_is(
                semantics::eval_expr(old(self).inputs@, depth as nat, old(self)@, *expr),
                final(self)@,
                expr_outcome(result),
            ),
        decreases depth, 6int, 0int,
    {
        let unimplemented = match &expr.kind {
            ExprKind::Array => "Array Expr",
            ExprKind::ArrayLit => "Array Lit",
            ExprKind::ArrayRepeat => "Array Repeat",
            ExprKind::Assign => "Assignment Expr",
            ExprKind::AssignField => "Field Assignment Expr",
            ExprKind::AssignIndex => "Assignment Index Expr",
            ExprKind::AssignOp => "Assignment Op Expr",
            ExprKind::BinOp(bin_op, lhs_expr_id, rhs_expr_id) => {
                return self.eval_expr_bin_op(depth, expr, *bin_op, *lhs_expr_id, *rhs_expr_id);
            },
            ExprKind::Block => "Block Expr",
            ExprKind::Call(callee_expr_id, args_expr_id) => {
                return self.eval_expr_call(depth, *callee_expr_id, *args_expr_id);
            },
            ExprKind::Closure => {
                return Err(Stop::Fault(Fault::ClosureExpression));
            },
            ExprKind::Fail => {
                return Err(Stop::Fault(Fault::FailExpression));
            },
            ExprKind::Field => "Field Expr",
            ExprKind::Hole => {
                return Err(Stop::Fault(Fault::HoleExpression));
            },
            ExprKind::If => "If Expr",
            ExprKind::Index => "Index Expr",
            ExprKind::Lit => {
                return Err(Stop::Fault(Fault::LiteralExpression));
            },
            ExprKind::Range => {
                return Err(Stop::Fault(Fault::RangeExpression));
            },
            ExprKind::Return => "Return Expr",
            ExprKind::String => {
                return Err(Stop::Fault(Fault::StringExpression));
            },
            ExprKind::Tuple(exprs) => {
                return self.eval_expr_tuple(depth, exprs);
            },
            ExprKind::UnOp => "Unary Expr",
            ExprKind::UpdateField => "Updated Field Expr",
            ExprKind::UpdateIndex => "Update Index Expr",
            ExprKind::Var(res) => {
                return match self.eval_expr_var(res) {
                    Ok(value) => Ok(Ok(value)),
                    Err(stop) => Err(stop),
                };
            },
            ExprKind::While => "While Expr",
        };
        Ok(Err(Error::Unimplemented(unimplemented.to_owned(), expr.span)))
    }

    /// Evaluates a binary expression.
    fn eval_expr_bin_op(
        &mut self,
        depth: usize,
        bin_op_expr: &'a Expr,
        bin_op: BinOp,
        lhs_expr_id: ExprId,
        rhs_expr_id: ExprId,
    ) -> (result: Result<Result<Value, Error>, Stop>)
        requires
            old(self).valid(),
            old(self)@.errors.len() == 0,
        ensures
            final(self).inputs == old(self).inputs,
            flow_is(
                semantics::eval_bin_op(
                    old(self).inputs@,
                    depth as nat,
                    old(self)@,
                    *bin_op_expr,
                    bin_op,
                    lhs_expr_id,
                    rhs_expr_id,
                ),
                final(self)@,
                expr_outcome(result),
            ),
        decreases depth, 5int, 0int,
    {
        let lhs_expr_value = match self.try_eval_expr(depth, lhs_expr_id) {
            Ok(Some(value)) => value,
            Ok(None) => {
                let span = self.expr_span(lhs_expr_id);
                return Ok(Err(Error::FailedToEvaluateBinaryExpressionOperand(span)));
            },
            Err(stop) => {
                return Err(stop);
            },
        };
        let rhs_expr_value = match self.try_eval_expr(depth, rhs_expr_id) {
            Ok(Some(value)) => value,
            Ok(None) => {
                let span = self.expr_span(rhs_expr_id);
                return Ok(Err(Error::FailedToEvaluateBinaryExpressionOperand(span)));
            },
            Err(stop) => {
                return Err(stop);
            },
        };
        self.apply_bin_op(bin_op_expr, bin_op, &lhs_expr_value, &rhs_expr_value)
    }

    /// Applies a binary operator to the values of its operands.
    fn apply_bin_op(
        &mut self,
        bin_op_expr: &'a Expr,
        bin_op: BinOp,
        lhs_expr_value: &Value,
        rhs_expr_value: &Value,
    ) -> (result: Result<Result<Value, Error>, Stop>)
        requires
            old(self)@.program.blocks.contains_key(old(self)@.context.current_block),
        ensures
            final(self).inputs == old(self).inputs,
            flow_is(
                semantics::apply_bin_op(
                    old(self)@,
                    *bin_op_expr,
                    bin_op,
                    lhs_expr_value@,
                    rhs_expr_value@,
                ),
                final(self)@,
                expr_outcome(result),
            ),
    {
        let lhs_operand = match self.comparison_operand(lhs_expr_value) {
            Ok(operand) => operand,
            Err(stop) => {
                return Err(stop);
            },
        };
        let rhs_operand = match self.comparison_operand(rhs_expr_value) {
            Ok(operand) => operand,
            Err(stop) => {
                return Err(stop);
            },
        };
        let variable_ty = match map_fir_type_to_rir_type(&bin_op_expr.ty) {
            Ok(ty) => ty,
            Err(fault) => {
                return Err(Stop::Fault(fault));
            },
        };
        let variable = match self.next_var(variable_ty) {
            Ok(variable) => variable,
            Err(stop) => {
                return Err(stop);
            },
        };
        let instruction = match bin_op {
            BinOp::Eq => Instruction::Icmp(ConditionCode::Eq, lhs_operand, rhs_operand, variable),
            BinOp::Neq => Instruction::Icmp(ConditionCode::Ne, lhs_operand, rhs_operand, variable),
            _ => {
                return Ok(
                    Err(Error::Unimplemented(describe_bin_op(bin_op), bin_op_expr.span)),
                );
            },
        };
        self.emit(instruction);
        Ok(Ok(Value::variable(variable.variable_id)))
    }

    /// Evaluates a call.
    fn eval_expr_call(
        &mut self,
        depth: usize,
        callee_expr_id: ExprId,
        args_expr_id: ExprId,
    ) -> (result: Result<Result<Value, Error>, Stop>)
        requires
            old(self).valid(),
            old(self)@.errors.len() == 0,
        ensures
            final(self).inputs == old(self).inputs,
            flow_is(
                semantics::eval_call(
                    old(self).inputs@,
                    depth as nat,
                    old(self)@,
                    callee_expr_id,
                    args_expr_id,
                ),
                final(self)@,
                expr_outcome(result),
            ),
        decreases depth, 5int, 0int,
    {
        let callable_value = match self.try_eval_expr(depth, callee_expr_id) {
            Ok(Some(value)) => value,
            Ok(None) => {
                let span = self.expr_span(callee_expr_id);
                return Ok(Err(Error::FailedToEvaluateCalleeExpression(span)));
            },
            Err(stop) => {
                return Err(stop);
            },
        };
        let args_value = match self.try_eval_expr(depth, args_expr_id) {
            Ok(Some(value)) => value,
            Ok(None) => {
                let span = self.expr_span(args_expr_id);
                return Ok(Err(Error::FailedToEvaluateCalleeExpression(span)));
            },
            Err(stop) => {
                return Err(stop);
            },
        };
        let (store_item_id, functor_app) = match callable_value {
            Value::Global(store_item_id, functor_app) => (store_item_id, functor_app),
            _ => {
                return Err(Stop::Fault(Fault::CalleeNotGlobal));
            },
        };
        let callable_decl = match self.inputs.package_store.get_global(store_item_id) {
            Some(Global::Callable(callable_decl)) => callable_decl,
            Some(Global::Udt) => {
                return Err(Stop::Fault(Fault::GlobalNotCallable));
            },
            None => {
                return Err(Stop::Fault(Fault::MissingGlobal));
            },
        };
        match &callable_decl.implementation {
            CallableImpl::Intrinsic => match self.eval_expr_call_to_intrinsic(
                callable_decl,
                args_value,
            ) {
                Ok(value) => Ok(Ok(value)),
                Err(stop) => Err(stop),
            },
            CallableImpl::Spec(specializations) => self.eval_expr_call_to_spec(
                depth,
                store_item_id,
                functor_app,
                callable_decl,
                specializations,
            ),
        }
    }

    /// Runs the block of a specialization in a scope of its own.
    fn eval_expr_call_to_spec(
        &mut self,
        depth: usize,
        global_callable_id: StoreItemId,
        functor_app: FunctorApp,
        callable_decl: &'a CallableDecl,
        specializations: &'a Specializations,
    ) -> (result: Result<Result<Value, Error>, Stop>)
        requires
            old(self).valid(),
            old(self)@.errors.len() == 0,
            old(self).inputs@.store.global(global_callable_id) == Some(
                Global::Callable(*callable_decl),
            ),
            callable_decl.implementation == CallableImpl::Spec(*specializations),
        ensures
            final(self).inputs == old(self).inputs,
            flow_is(
                semantics::call_spec(
                    old(self).inputs@,
                    depth as nat,
                    old(self)@,
                    global_callable_id,
                    functor_app,
                    *callable_decl,
                    *specializations,
                ),
                final(self)@,
                expr_outcome(result),
            ),
        decreases depth, 4int, 0int,
    {
        let spec_decl = match get_spec_decl(specializations, functor_app) {
            Ok(spec_decl) => spec_decl,
            Err(fault) => {
                return Err(Stop::Fault(fault));
            },
        };
        proof {
            validity::lemma_call_spec(
                self.inputs@,
                depth as nat,
                self@,
                global_callable_id,
                functor_app,
                *callable_decl,
                *specializations,
            );
        }
        if !self.eval_context.can_push_call() {
            return Err(Stop::Fault(Fault::IdentifiersExhausted));
        }
        self.eval_context.push_call(
            global_callable_id.package,
            global_callable_id.item,
            functor_app,
        );
        match self.visit_block(depth, spec_decl.block) {
            Ok(()) => {},
            Err(stop) => {
                return Err(stop);
            },
        }
        let popped_scope = self.eval_context.pop_scope();
        assert(popped_scope@.package_id == global_callable_id.package);
        assert(popped_scope@.callable == Some((global_callable_id.item, functor_app)));
        if self.errors.len() == 0 {
            Ok(Ok(Value::unit()))
        } else {
            let name = callable_decl.name.name.clone();
            Ok(Err(Error::FailedToEvaluateCallable(name, callable_decl.name.span)))
        }
    }

    /// Evaluates the elements of a tuple.
    fn eval_expr_tuple(&mut self, depth: usize, exprs: &'a Vec<ExprId>) -> (result: Result<
        Result<Value, Error>,
        Stop,
    >)
        requires
            old(self).valid(),
            old(self)@.errors.len() == 0,
        ensures
            final(self).inputs == old(self).inputs,
            flow_is(
                semantics::eval_tuple(
                    old(self).inputs@,
                    depth as nat,
                    old(self)@,
                    exprs@,
                    0,
                    Seq::empty(),
                ),
                final(self)@,
                expr_outcome(result),
            ),
        decreases depth, 2int, 0int,
    {
        let mut values: Vec<Value> = Vec::new();
        let mut i: usize = 0;
        assert(values_model(values@) =~= Seq::<ValueModel>::empty());
        while i < exprs.len()
            invariant
                i <= exprs@.len(),
                self.valid(),
                self@.errors.len() == 0,
                self.inputs == old(self).inputs,
                semantics::eval_tuple(
                    old(self).inputs@,
                    depth as nat,
                    old(self)@,
                    exprs@,
                    0,
                    Seq::empty(),
                ) == semantics::eval_tuple(
                    self.inputs@,
                    depth as nat,
                    self@,
                    exprs@,
                    i as int,
                    values_model(values@),
                ),
            decreases exprs@.len() - i,
        {
            let value = match self.try_eval_expr(depth, exprs[i]) {
                Ok(Some(value)) => value,
                Ok(None) => {
                    let span = self.expr_span(exprs[i]);
                    return Ok(Err(Error::FailedToEvaluateTupleElementExpression(span)));
                },
                Err(stop) => {
                    return Err(stop);
                },
            };
            let ghost before = values_model(values@);
            values.push(value);
            assert(values_model(values@) =~= before.push(value@));
            i += 1;
        }
        proof {
            lemma_tuple_model(values);
        }
        Ok(Ok(Value::Tuple(values)))
    }

    /// Runs the statements of a block, up to the first that meets an error.
    fn visit_block(&mut self, depth: usize, block_id: BlockId) -> (result: Result<(), Stop>)
        requires
            old(self).valid(),
            old(self)@.errors.len() == 0,
        ensures
            final(self).inputs == old(self).inputs,
            state_is(
                semantics::visit_block(old(self).inputs@, depth as nat, old(self)@, block_id),
                final(self)@,
                result,
            ),
        decreases depth, 3int, 0int,
    {
        let package_id = self.get_current_package_id();
        let block = match self.inputs.package_store.get_block(package_id, block_id) {
            Some(block) => block,
            None => {
                return Err(Stop::Fault(Fault::MissingBlock));
            },
        };
        let mut i: usize = 0;
        while i < block.stmts.len()
            invariant
                i <= block.stmts@.len(),
                self.valid(),
                self@.errors.len() == 0,
                self.inputs == old(self).inputs,
                semantics::visit_block(old(self).inputs@, depth as nat, old(self)@, block_id)
                    == semantics::visit_stmts(
                    self.inputs@,
                    depth as nat,
                    self@,
                    block.stmts@,
                    i as int,
                ),
            decreases block.stmts@.len() - i,
        {
            proof {
                validity::lemma_visit_stmt(
                    self.inputs@,
                    depth as nat,
                    self@,
                    block.stmts@[i as int],
                );
            }
            match self.visit_stmt(depth, block.stmts[i]) {
                Ok(()) => {},
                Err(stop) => {
                    return Err(stop);
                },
            }
            if self.errors.len() > 0 {
                return Ok(());
            }
            i += 1;
        }
        Ok(())
    }

    /// Runs a statement.
    fn visit_stmt(&mut self, depth: usize, stmt_id: StmtId) -> (result: Result<(), Stop>)
        requires
            old(self).valid(),
            old(self)@.errors.len() == 0,
        ensures
            final(self).inputs == old(self).inputs,
            state_is(
                semantics::visit_stmt(old(self).inputs@, depth as nat, old(self)@, stmt_id),
                final(self)@,
                result,
            ),
        decreases depth, 1int, 0int,
    {
        match self.is_classical_stmt(stmt_id) {
            Ok(true) => {
                return self.eval_classical_stmt(stmt_id);
            },
            Ok(false) => {},
            Err(stop) => {
                return Err(stop);
            },
        }
        let package_id = self.get_current_package_id();
        let stmt = match self.inputs.package_store.get_stmt(package_id, stmt_id) {
            Some(stmt) => stmt,
            None => {
                return Err(Stop::Fault(Fault::MissingStmt));
            },
        };
        match stmt.kind {
            StmtKind::Expr(expr_id) | StmtKind::Semi(expr_id) => self.visit_expr(depth, expr_id),
            StmtKind::Local(pat_id, expr_id) => {
                proof {
                    validity::lemma_visit_expr(self.inputs@, depth as nat, self@, expr_id);
                }
                match self.visit_expr(depth, expr_id) {
                    Ok(()) => self.bind_expr_to_pat(depth, pat_id, expr_id),
                    Err(stop) => Err(stop),
                }
            },
            StmtKind::Item(_) => Ok(()),
        }
    }
}

} // verus!
