use qsc_partial_eval::error::Fault;
use qsc_partial_eval::evaluation_context::EvaluationContext;
use qsc_partial_eval::fir::{self, BinOp, FunctorApp, Prim, SpecDecl, Specializations};
use qsc_partial_eval::index_map::IndexMap;
use qsc_partial_eval::lowering::{
    describe_bin_op, get_spec_decl, map_eval_value_to_rir_operand, map_fir_type_to_rir_type,
    map_input_params, mresetz_callable, mz_callable, name_is, read_result_callable,
    resolve_call_arg_operands,
};
use qsc_partial_eval::management::ResourceManager;
use qsc_partial_eval::rir::{
    Block, Callable, CallableType, Instruction, Literal, Operand, Program, Ty,
};
use qsc_partial_eval::value::{HeldValue, MeasurementResult, Qubit, Value, Var};

#[test]
fn index_map_keeps_the_last_value_of_a_key() {
    let mut map: IndexMap<&str> = IndexMap::new();
    assert!(map.get(0).is_none());
    map.insert(3, "a");
    map.insert(1, "b");
    map.insert(3, "c");
    assert_eq!(map.get(3), Some(&"c"));
    assert_eq!(map.get(1), Some(&"b"));
    assert_eq!(map.get(2), None);
    assert_eq!(map.get(4), None);
    *map.get_mut(1) = "d";
    assert_eq!(map.get(1), Some(&"d"));
}

#[test]
fn release_undoes_allocation() {
    let mut manager = ResourceManager::new();
    assert!(!manager.knows_qubit(Qubit(0)));
    assert_eq!(manager.allocate_qubit(), Qubit(0));
    assert_eq!(manager.allocate_qubit(), Qubit(1));
    assert_eq!(manager.allocate_qubit(), Qubit(2));
    manager.release_qubit(Qubit(2));
    manager.release_qubit(Qubit(0));
    assert_eq!(manager.allocate_qubit(), Qubit(0));
    assert_eq!(manager.allocate_qubit(), Qubit(2));
    assert_eq!(manager.allocate_qubit(), Qubit(3));
    assert!(manager.knows_qubit(Qubit(3)));
    assert!(!manager.knows_qubit(Qubit(4)));
}

#[test]
fn identifiers_are_handed_out_in_order() {
    let mut manager = ResourceManager::new();
    assert_eq!(manager.next_block(), Some(0));
    assert_eq!(manager.next_block(), Some(1));
    assert_eq!(manager.next_callable(), Some(0));
    assert_eq!(manager.next_var(), Some(0));
    assert_eq!(manager.next_var(), Some(1));
    assert_eq!(manager.next_result(), Some(MeasurementResult::Id(0)));
    assert_eq!(manager.next_result(), Some(MeasurementResult::Id(1)));
    assert_eq!(manager.next_callable(), Some(1));
}

#[test]
fn scopes_are_stacked() {
    let mut context = EvaluationContext::new(7, 5);
    assert_eq!(context.current_block(), 5);
    assert_eq!(context.get_current_scope().package_id(), 7);
    assert_eq!(context.get_current_scope().callable(), None);
    context.get_current_scope_mut().insert_expr_value(1, Value::Int(10));
    let functors = FunctorApp { adjoint: true, controlled: 2 };
    assert!(context.can_push_call());
    context.push_call(8, 3, functors);
    assert_eq!(context.get_current_scope().id(), 1);
    assert!(context.get_current_scope().get_expr_value(1).is_none());
    context.get_current_scope_mut().insert_local_var_value(1, Value::Bool(true));
    let popped = context.pop_scope();
    assert_eq!(popped.package_id(), 8);
    assert_eq!(popped.callable(), Some((3, functors)));
    assert!(matches!(popped.get_local_var_value(1), Some(Value::Bool(true))));
    assert!(matches!(context.get_current_scope().get_expr_value(1), Some(Value::Int(10))));
    assert!(context.get_current_scope().get_local_var_value(1).is_none());
    context.push_call(8, 3, functors);
    assert_eq!(context.get_current_scope().id(), 2);
}

#[test]
fn specializations_are_selected_by_functors() {
    let decl = |block: u32| SpecDecl { block, exec_graph: 0 };
    let all = Specializations {
        body: decl(0),
        adj: Some(decl(1)),
        ctl: Some(decl(2)),
        ctl_adj: Some(decl(3)),
    };
    let body_only = Specializations { body: decl(0), adj: None, ctl: None, ctl_adj: None };
    let functors = |adjoint: bool, controlled: u8| FunctorApp { adjoint, controlled };
    assert_eq!(get_spec_decl(&all, functors(false, 0)), Ok(decl(0)));
    assert_eq!(get_spec_decl(&all, functors(true, 0)), Ok(decl(1)));
    assert_eq!(get_spec_decl(&all, functors(false, 3)), Ok(decl(2)));
    assert_eq!(get_spec_decl(&all, functors(true, 1)), Ok(decl(3)));
    assert_eq!(get_spec_decl(&body_only, functors(false, 0)), Ok(decl(0)));
    assert_eq!(get_spec_decl(&body_only, functors(true, 0)), Err(Fault::MissingAdjoint));
    assert_eq!(get_spec_decl(&body_only, functors(false, 1)), Err(Fault::MissingControlled));
    assert_eq!(
        get_spec_decl(&body_only, functors(true, 1)),
        Err(Fault::MissingControlledAdjoint)
    );
}

#[test]
fn values_become_literals() {
    let lower = |value: Value| map_eval_value_to_rir_operand(&value);
    assert_eq!(lower(Value::Int(-7)), Ok(Operand::Literal(Literal::Integer(-7))));
    assert_eq!(lower(Value::Bool(true)), Ok(Operand::Literal(Literal::Bool(true))));
    assert_eq!(lower(Value::Qubit(Qubit(6))), Ok(Operand::Literal(Literal::Qubit(6))));
    assert_eq!(
        lower(Value::Result(MeasurementResult::Id(2))),
        Ok(Operand::Literal(Literal::Result(2)))
    );
    assert_eq!(
        lower(Value::Result(MeasurementResult::Val(false))),
        Ok(Operand::Literal(Literal::Bool(false)))
    );
    assert_eq!(lower(Value::Var(Var(0))), Err(Fault::UnmappableValue));
    assert_eq!(lower(Value::Held(HeldValue(0))), Err(Fault::UnmappableValue));
    assert_eq!(lower(Value::unit()), Err(Fault::UnmappableValue));
}

#[test]
fn arguments_become_operands() {
    let integer = |i: i64| Operand::Literal(Literal::Integer(i));
    assert_eq!(resolve_call_arg_operands(Value::Int(4)), Ok(vec![integer(4)]));
    assert_eq!(resolve_call_arg_operands(Value::unit()), Ok(vec![]));
    assert_eq!(
        resolve_call_arg_operands(Value::Tuple(vec![Value::Int(1), Value::Int(2)])),
        Ok(vec![integer(1), integer(2)])
    );
    // A tuple within a tuple is no operand.
    assert_eq!(
        resolve_call_arg_operands(Value::Tuple(vec![Value::Int(1), Value::unit()])),
        Err(Fault::UnmappableValue)
    );
}

#[test]
fn types_are_lowered() {
    assert_eq!(map_fir_type_to_rir_type(&fir::Ty::Prim(Prim::Bool)), Ok(Ty::Boolean));
    assert_eq!(map_fir_type_to_rir_type(&fir::Ty::Prim(Prim::Double)), Ok(Ty::Double));
    assert_eq!(
        map_fir_type_to_rir_type(&fir::Ty::Prim(Prim::Pauli)),
        Err(Fault::UnsupportedPrimitiveType)
    );
    assert_eq!(map_fir_type_to_rir_type(&fir::Ty::Other), Err(Fault::NotAPrimitiveType));
    assert_eq!(
        map_input_params(&vec![fir::Ty::Prim(Prim::Int), fir::Ty::Prim(Prim::Qubit)]),
        Ok(vec![Ty::Integer, Ty::Qubit])
    );
    assert_eq!(
        map_input_params(&vec![fir::Ty::Prim(Prim::String), fir::Ty::Other]),
        Err(Fault::UnsupportedPrimitiveType)
    );
}

#[test]
fn runtime_callables_have_fixed_signatures() {
    let measurement = |name: &str| Callable {
        name: name.to_string(),
        input_type: vec![Ty::Qubit, Ty::Result],
        output_type: None,
        body: None,
        call_type: CallableType::Measurement,
    };
    assert_eq!(mz_callable(), measurement("__quantum__qis__mz__body"));
    assert_eq!(mresetz_callable(), measurement("__quantum__qis__mresetz__body"));
    assert_eq!(
        read_result_callable(),
        Callable {
            name: "__quantum__rt__read_result__body".to_string(),
            input_type: vec![Ty::Result],
            output_type: Some(Ty::Boolean),
            body: None,
            call_type: CallableType::Readout,
        }
    );
}

#[test]
fn texts() {
    assert_eq!(describe_bin_op(BinOp::Neq), "BinOp Expr (Neq)");
    assert!(name_is(&"main".to_string(), "main"));
    assert!(!name_is(&"main".to_string(), "Main"));
}

#[test]
fn values_are_duplicated_deeply() {
    let value = Value::Tuple(vec![Value::Tuple(vec![Value::Int(1)]), Value::Qubit(Qubit(2))]);
    assert_eq!(format!("{:?}", value.duplicate()), format!("{value:?}"));
}

#[test]
fn instructions_go_to_the_end_of_their_block() {
    let mut program = Program::new();
    program.insert_block(0, Block(vec![]));
    program.insert_block(1, Block(vec![]));
    program.push_instruction(1, Instruction::Call(4, vec![], None));
    program.push_instruction(1, Instruction::Return);
    assert_eq!(program.blocks.get(0), Some(&Block(vec![])));
    assert_eq!(
        program.blocks.get(1),
        Some(&Block(vec![Instruction::Call(4, vec![], None), Instruction::Return]))
    );
}
