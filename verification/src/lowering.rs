//! Lowers types, values and callables of the evaluated program to those of the generated one.

use crate::error::Fault;
use crate::fir;
use crate::fir::{BinOp, CallableDecl, FunctorApp, Prim, SpecDecl, Specializations};
use crate::rir;
use crate::rir::{Callable, CallableModel, CallableType, Literal, Operand};
use crate::value::{lemma_tuple_model, values_model, MeasurementResult, Value, ValueModel};
use vstd::prelude::*;

verus! {

/// The specialization that the functors select: the adjoint one when the adjoint functor is
/// applied, the controlled one when any control is.
pub open spec fn spec_decl(specializations: Specializations, functors: FunctorApp) -> Result<
    SpecDecl,
    Fault,
> {
    let (selected, fault) = if functors.controlled == 0 {
        if functors.adjoint {
            (specializations.adj, Fault::MissingAdjoint)
        } else {
            (Some(specializations.body), Fault::MissingAdjoint)
        }
    } else if functors.adjoint {
        (specializations.ctl_adj, Fault::MissingControlledAdjoint)
    } else {
        (specializations.ctl, Fault::MissingControlled)
    };
    match selected {
        Some(decl) => Ok(decl),
        None => Err(fault),
    }
}

/// The specialization that the functors select.
pub fn get_spec_decl(specializations: &Specializations, functors: FunctorApp) -> (decl: Result<
    SpecDecl,
    Fault,
>)
    ensures
        decl == spec_decl(*specializations, functors),
{
    if !functors.adjoint && functors.controlled == 0 {
        Ok(specializations.body)
    } else if functors.adjoint && functors.controlled == 0 {
        match specializations.adj {
            Some(decl) => Ok(decl),
            None => Err(Fault::MissingAdjoint),
        }
    } else if !functors.adjoint && functors.controlled > 0 {
        match specializations.ctl {
            Some(decl) => Ok(decl),
            None => Err(Fault::MissingControlled),
        }
    } else {
        match specializations.ctl_adj {
            Some(decl) => Ok(decl),
            None => Err(Fault::MissingControlledAdjoint),
        }
    }
}

/// The operand that holds a value: a literal of the same kind and content. Qubits and results
/// are identified by 32 bits in the generated program.
pub open spec fn lower_value(value: ValueModel) -> Result<Operand, Fault> {
    match value {
        ValueModel::Bool(b) => Ok(Operand::Literal(Literal::Bool(b))),
        ValueModel::Double(d) => Ok(Operand::Literal(Literal::Double(d))),
        ValueModel::Int(i) => Ok(Operand::Literal(Literal::Integer(i))),
        ValueModel::Qubit(q) => if q.0 <= u32::MAX {
            Ok(Operand::Literal(Literal::Qubit(q.0 as u32)))
        } else {
            Err(Fault::QubitIdTooLarge)
        },
        ValueModel::Result(MeasurementResult::Id(id)) => if id <= u32::MAX {
            Ok(Operand::Literal(Literal::Result(id as u32)))
        } else {
            Err(Fault::ResultIdTooLarge)
        },
        ValueModel::Result(MeasurementResult::Val(b)) => Ok(Operand::Literal(Literal::Bool(b))),
        _ => Err(Fault::UnmappableValue),
    }
}

/// The operand that holds a value.
pub fn map_eval_value_to_rir_operand(value: &Value) -> (operand: Result<Operand, Fault>)
    ensures
        operand == lower_value(value@),
{
    match value {
        Value::Bool(b) => Ok(Operand::Literal(Literal::Bool(*b))),
        Value::Double(d) => Ok(Operand::Literal(Literal::Double(*d))),
        Value::Int(i) => Ok(Operand::Literal(Literal::Integer(*i))),
        Value::Qubit(q) => if q.0 as u64 <= u32::MAX as u64 {
            Ok(Operand::Literal(Literal::Qubit(q.0 as u32)))
        } else {
            Err(Fault::QubitIdTooLarge)
        },
        Value::Result(r) => match r {
            MeasurementResult::Id(id) => if *id as u64 <= u32::MAX as u64 {
                Ok(Operand::Literal(Literal::Result(*id as u32)))
            } else {
                Err(Fault::ResultIdTooLarge)
            },
            MeasurementResult::Val(b) => Ok(Operand::Literal(Literal::Bool(*b))),
        },
        _ => Err(Fault::UnmappableValue),
    }
}

/// The type of the generated program that stands for a type.
pub open spec fn lower_type(ty: fir::Ty) -> Result<rir::Ty, Fault> {
    match ty {
        fir::Ty::Prim(Prim::Bool) => Ok(rir::Ty::Boolean),
        fir::Ty::Prim(Prim::Double) => Ok(rir::Ty::Double),
        fir::Ty::Prim(Prim::Int) => Ok(rir::Ty::Integer),
        fir::Ty::Prim(Prim::Qubit) => Ok(rir::Ty::Qubit),
        fir::Ty::Prim(Prim::Result) => Ok(rir::Ty::Result),
        fir::Ty::Prim(_) => Err(Fault::UnsupportedPrimitiveType),
        _ => Err(Fault::NotAPrimitiveType),
    }
}

/// The type of the generated program that stands for a type.
pub fn map_fir_type_to_rir_type(ty: &fir::Ty) -> (lowered: Result<rir::Ty, Fault>)
    ensures
        lowered == lower_type(*ty),
{
    match ty {
        fir::Ty::Prim(prim) => match prim {
            Prim::BigInt
            | Prim::Pauli
            | Prim::Range
            | Prim::RangeFrom
            | Prim::RangeFull
            | Prim::RangeTo
            | Prim::String => Err(Fault::UnsupportedPrimitiveType),
            Prim::Bool => Ok(rir::Ty::Boolean),
            Prim::Double => Ok(rir::Ty::Double),
            Prim::Int => Ok(rir::Ty::Integer),
            Prim::Qubit => Ok(rir::Ty::Qubit),
            Prim::Result => Ok(rir::Ty::Result),
        },
        _ => Err(Fault::NotAPrimitiveType),
    }
}

/// The outcome of lowering a list whose first elements have been lowered already.
pub open spec fn prepend<T>(done: Seq<T>, rest: Result<Seq<T>, Fault>) -> Result<Seq<T>, Fault> {
    match rest {
        Ok(rest) => Ok(done + rest),
        Err(fault) => Err(fault),
    }
}

/// The types from index `i` on, each lowered, or the first fault.
pub open spec fn lower_types(tys: Seq<fir::Ty>, i: int) -> Result<Seq<rir::Ty>, Fault>
    decreases tys.len() - i,
{
    if 0 <= i < tys.len() {
        match lower_type(tys[i]) {
            Ok(ty) => prepend(seq![ty], lower_types(tys, i + 1)),
            Err(fault) => Err(fault),
        }
    } else {
        Ok(Seq::empty())
    }
}

/// The types of parameters, each lowered, or the first fault.
pub fn map_input_params(tys: &Vec<fir::Ty>) -> (lowered: Result<Vec<rir::Ty>, Fault>)
    ensures
        match lowered {
            Ok(v) => lower_types(tys@, 0) == Ok::<Seq<rir::Ty>, Fault>(v@),
            Err(fault) => lower_types(tys@, 0) == Err::<Seq<rir::Ty>, Fault>(fault),
        },
{
    let mut lowered: Vec<rir::Ty> = Vec::new();
    let mut i: usize = 0;
    assert(match lower_types(tys@, 0) {
        Ok(v) => Seq::<rir::Ty>::empty() + v =~= v,
        Err(_) => true,
    });
    while i < tys.len()
        invariant
            i <= tys@.len(),
            lower_types(tys@, 0) == prepend(lowered@, lower_types(tys@, i as int)),
        decreases tys@.len() - i,
    {
        match map_fir_type_to_rir_type(&tys[i]) {
            Ok(ty) => {
                let ghost before = lowered@;
                lowered.push(ty);
                proof {
                    if let Ok(rest) = lower_types(tys@, i + 1) {
                        assert(before + (seq![ty] + rest) =~= lowered@ + rest);
                    }
                }
            },
            Err(fault) => {
                return Err(fault);
            },
        }
        i += 1;
    }
    assert(lowered@ + Seq::<rir::Ty>::empty() =~= lowered@);
    Ok(lowered)
}

/// The values from index `i` on, each lowered, or the first fault.
pub open spec fn lower_values(values: Seq<ValueModel>, i: int) -> Result<Seq<Operand>, Fault>
    decreases values.len() - i,
{
    if 0 <= i < values.len() {
        match lower_value(values[i]) {
            Ok(operand) => prepend(seq![operand], lower_values(values, i + 1)),
            Err(fault) => Err(fault),
        }
    } else {
        Ok(Seq::empty())
    }
}

/// The operands of a call: one for each element of a tuple, or a single one for any other
/// value.
pub open spec fn call_operands(args: ValueModel) -> Result<Seq<Operand>, Fault> {
    match args {
        ValueModel::Tuple(elements) => lower_values(elements, 0),
        _ => match lower_value(args) {
            Ok(operand) => Ok(seq![operand]),
            Err(fault) => Err(fault),
        },
    }
}

/// The operands of a call.
pub fn resolve_call_arg_operands(args_value: Value) -> (operands: Result<Vec<Operand>, Fault>)
    ensures
        match operands {
            Ok(v) => call_operands(args_value@) == Ok::<Seq<Operand>, Fault>(v@),
            Err(fault) => call_operands(args_value@) == Err::<Seq<Operand>, Fault>(fault),
        },
{
    let mut operands: Vec<Operand> = Vec::new();
    if let Value::Tuple(elements) = &args_value {
        let ghost values = values_model(elements@);
        proof {
            lemma_tuple_model(*elements);
        }
        let mut i: usize = 0;
        assert(match lower_values(values, 0) {
            Ok(v) => Seq::<Operand>::empty() + v =~= v,
            Err(_) => true,
        });
        while i < elements.len()
            invariant
                i <= elements@.len(),
                values == values_model(elements@),
                args_value@ == ValueModel::Tuple(values),
                lower_values(values, 0) == prepend(operands@, lower_values(values, i as int)),
            decreases elements@.len() - i,
        {
            match map_eval_value_to_rir_operand(&elements[i]) {
                Ok(operand) => {
                    let ghost before = operands@;
                    operands.push(operand);
                    proof {
                        if let Ok(rest) = lower_values(values, i + 1) {
                            assert(before + (seq![operand] + rest) =~= operands@ + rest);
                        }
                    }
                },
                Err(fault) => {
                    return Err(fault);
                },
            }
            i += 1;
        }
        assert(operands@ + Seq::<Operand>::empty() =~= operands@);
    } else {
        match map_eval_value_to_rir_operand(&args_value) {
            Ok(operand) => {
                operands.push(operand);
                assert(operands@ =~= seq![operand]);
            },
            Err(fault) => {
                return Err(fault);
            },
        }
    }
    Ok(operands)
}

/// Whether a name has the given text.
pub fn name_is(name: &String, text: &str) -> (same: bool)
    ensures
        same == (name@ == text@),
{
    *name == text.to_owned()
}

/// The callable that stands for an intrinsic in the generated program: it has the intrinsic's
/// name, lowered parameter types and lowered output type, and no body; unit is no output.
pub open spec fn intrinsic_callable(decl: CallableDecl) -> Result<CallableModel, Fault> {
    match lower_types(decl.input_params@, 0) {
        Err(fault) => Err(fault),
        Ok(input_type) => {
            let output = if decl.output.spec_is_unit() {
                Ok(None)
            } else {
                match lower_type(decl.output) {
                    Ok(ty) => Ok(Some(ty)),
                    Err(fault) => Err(fault),
                }
            };
            match output {
                Err(fault) => Err(fault),
                Ok(output_type) => Ok(
                    CallableModel {
                        name: decl.name.name@,
                        input_type,
                        output_type,
                        body: None,
                        call_type: if decl.name.name@ == "__quantum__qis__reset__body"@ {
                            CallableType::Reset
                        } else {
                            CallableType::Regular
                        },
                    },
                ),
            }
        },
    }
}

/// The callable that stands for an intrinsic in the generated program.
pub fn create_intrinsic_callable(callable_decl: &CallableDecl) -> (callable: Result<
    Callable,
    Fault,
>)
    ensures
        match callable {
            Ok(c) => intrinsic_callable(*callable_decl) == Ok::<CallableModel, Fault>(c@),
            Err(fault) => intrinsic_callable(*callable_decl) == Err::<CallableModel, Fault>(fault),
        },
{
    let name = callable_decl.name.name.clone();
    let input_type = match map_input_params(&callable_decl.input_params) {
        Ok(input_type) => input_type,
        Err(fault) => {
            return Err(fault);
        },
    };
    let output_type = if callable_decl.output.is_unit() {
        None
    } else {
        match map_fir_type_to_rir_type(&callable_decl.output) {
            Ok(ty) => Some(ty),
            Err(fault) => {
                return Err(fault);
            },
        }
    };
    let call_type = if name_is(&name, "__quantum__qis__reset__body") {
        CallableType::Reset
    } else {
        CallableType::Regular
    };
    Ok(Callable { name, input_type, output_type, body: None, call_type })
}

/// The callable that measures a qubit and resets it.
pub open spec fn mresetz_model() -> CallableModel {
    CallableModel {
        name: "__quantum__qis__mresetz__body"@,
        input_type: seq![rir::Ty::Qubit, rir::Ty::Result],
        output_type: None,
        body: None,
        call_type: CallableType::Measurement,
    }
}

pub fn mresetz_callable() -> (callable: Callable)
    ensures
        callable@ == mresetz_model(),
{
    let callable = Callable {
        name: "__quantum__qis__mresetz__body".to_owned(),
        input_type: vec![rir::Ty::Qubit, rir::Ty::Result],
        output_type: None,
        body: None,
        call_type: CallableType::Measurement,
    };
    assert(callable@ =~= mresetz_model());
    callable
}

/// The callable that measures a qubit.
pub open spec fn mz_model() -> CallableModel {
    CallableModel {
        name: "__quantum__qis__mz__body"@,
        input_type: seq![rir::Ty::Qubit, rir::Ty::Result],
        output_type: None,
        body: None,
        call_type: CallableType::Measurement,
    }
}

pub fn mz_callable() -> (callable: Callable)
    ensures
        callable@ == mz_model(),
{
    let callable = Callable {
        name: "__quantum__qis__mz__body".to_owned(),
        input_type: vec![rir::Ty::Qubit, rir::Ty::Result],
        output_type: None,
        body: None,
        call_type: CallableType::Measurement,
    };
    assert(callable@ =~= mz_model());
    callable
}

/// The callable that reads a measurement result.
pub open spec fn read_result_model() -> CallableModel {
    CallableModel {
        name: "__quantum__rt__read_result__body"@,
        input_type: seq![rir::Ty::Result],
        output_type: Some(rir::Ty::Boolean),
        body: None,
        call_type: CallableType::Readout,
    }
}

pub fn read_result_callable() -> (callable: Callable)
    ensures
        callable@ == read_result_model(),
{
    let callable = Callable {
        name: "__quantum__rt__read_result__body".to_owned(),
        input_type: vec![rir::Ty::Result],
        output_type: Some(rir::Ty::Boolean),
        body: None,
        call_type: CallableType::Readout,
    };
    assert(callable@ =~= read_result_model());
    callable
}

/// How an operator that has no instruction yet is described.
pub open spec fn bin_op_text(op: BinOp) -> Seq<char> {
    match op {
        BinOp::Add => "BinOp Expr (Add)"@,
        BinOp::AndB => "BinOp Expr (AndB)"@,
        BinOp::AndL => "BinOp Expr (AndL)"@,
        BinOp::Div => "BinOp Expr (Div)"@,
        BinOp::Eq => "BinOp Expr (Eq)"@,
        BinOp::Exp => "BinOp Expr (Exp)"@,
        BinOp::Gt => "BinOp Expr (Gt)"@,
        BinOp::Gte => "BinOp Expr (Gte)"@,
        BinOp::Lt => "BinOp Expr (Lt)"@,
        BinOp::Lte => "BinOp Expr (Lte)"@,
        BinOp::Mod => "BinOp Expr (Mod)"@,
        BinOp::Mul => "BinOp Expr (Mul)"@,
        BinOp::Neq => "BinOp Expr (Neq)"@,
        BinOp::OrB => "BinOp Expr (OrB)"@,
        BinOp::OrL => "BinOp Expr (OrL)"@,
        BinOp::Shl => "BinOp Expr (Shl)"@,
        BinOp::Shr => "BinOp Expr (Shr)"@,
        BinOp::Sub => "BinOp Expr (Sub)"@,
        BinOp::XorB => "BinOp Expr (XorB)"@,
    }
}

/// How an operator that has no instruction yet is described.
pub fn describe_bin_op(op: BinOp) -> (text: String)
    ensures
        text@ == bin_op_text(op),
{
    let text = match op {
        BinOp::Add => "BinOp Expr (Add)",
        BinOp::AndB => "BinOp Expr (AndB)",
        BinOp::AndL => "BinOp Expr (AndL)",
        BinOp::Div => "BinOp Expr (Div)",
        BinOp::Eq => "BinOp Expr (Eq)",
        BinOp::Exp => "BinOp Expr (Exp)",
        BinOp::Gt => "BinOp Expr (Gt)",
        BinOp::Gte => "BinOp Expr (Gte)",
        BinOp::Lt => "BinOp Expr (Lt)",
        BinOp::Lte => "BinOp Expr (Lte)",
        BinOp::Mod => "BinOp Expr (Mod)",
        BinOp::Mul => "BinOp Expr (Mul)",
        BinOp::Neq => "BinOp Expr (Neq)",
        BinOp::OrB => "BinOp Expr (OrB)",
        BinOp::OrL => "BinOp Expr (OrL)",
        BinOp::Shl => "BinOp Expr (Shl)",
        BinOp::Shr => "BinOp Expr (Shr)",
        BinOp::Sub => "BinOp Expr (Sub)",
        BinOp::XorB => "BinOp Expr (XorB)",
    };
    text.to_owned()
}

} // verus!
