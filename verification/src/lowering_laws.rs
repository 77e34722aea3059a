//! What lowering keeps: kinds, contents and order.

use crate::error::Fault;
use crate::fir;
use crate::fir::{BinOp, CallableDecl, FunctorApp, Prim, SpecDecl, Specializations, StoreItemId};
use crate::lowering::{
    bin_op_text, call_operands, intrinsic_callable, lower_type, lower_types, lower_value,
    lower_values, mresetz_model, mz_model, read_result_model, spec_decl,
};
use crate::rir;
use crate::rir::{CallableType, Literal, Operand};
use crate::value::{DoubleBits, HeldValue, MeasurementResult, Qubit, ValueModel, Var};
use vstd::prelude::*;

verus! {

/// The functors select the specialization: the body without functors, else the one for exactly
/// the functors that are applied, however many controls there are. Only a missing one is a fault.
pub proof fn law_functors_select(s: Specializations, functors: FunctorApp, decl: SpecDecl)
    ensures
        !functors.adjoint && functors.controlled == 0 ==> spec_decl(s, functors) == Ok::<
            SpecDecl,
            Fault,
        >(s.body),
        functors.adjoint && functors.controlled == 0 ==> (s.adj == Some(decl) <==> spec_decl(
            s,
            functors,
        ) == Ok::<SpecDecl, Fault>(decl)),
        functors.adjoint && functors.controlled == 0 && s.adj is None ==> spec_decl(s, functors)
            == Err::<SpecDecl, Fault>(Fault::MissingAdjoint),
        !functors.adjoint && functors.controlled > 0 ==> (s.ctl == Some(decl) <==> spec_decl(
            s,
            functors,
        ) == Ok::<SpecDecl, Fault>(decl)),
        !functors.adjoint && functors.controlled > 0 && s.ctl is None ==> spec_decl(s, functors)
            == Err::<SpecDecl, Fault>(Fault::MissingControlled),
        functors.adjoint && functors.controlled > 0 ==> (s.ctl_adj == Some(decl) <==> spec_decl(
            s,
            functors,
        ) == Ok::<SpecDecl, Fault>(decl)),
        functors.adjoint && functors.controlled > 0 && s.ctl_adj is None ==> spec_decl(s, functors)
            == Err::<SpecDecl, Fault>(Fault::MissingControlledAdjoint),
{
}

/// A value becomes a literal that holds the same: a truth value, a number, or the identifier of a
/// qubit or result. A known measurement result becomes its truth value.
pub proof fn law_values_keep_their_content(
    b: bool,
    d: DoubleBits,
    i: i64,
    q: Qubit,
    id: usize,
)
    ensures
        lower_value(ValueModel::Bool(b)) == Ok::<Operand, Fault>(
            Operand::Literal(Literal::Bool(b)),
        ),
        lower_value(ValueModel::Double(d)) == Ok::<Operand, Fault>(
            Operand::Literal(Literal::Double(d)),
        ),
        lower_value(ValueModel::Int(i)) == Ok::<Operand, Fault>(
            Operand::Literal(Literal::Integer(i)),
        ),
        lower_value(ValueModel::Result(MeasurementResult::Val(b))) == Ok::<Operand, Fault>(
            Operand::Literal(Literal::Bool(b)),
        ),
        q.0 <= u32::MAX ==> (lower_value(ValueModel::Qubit(q)) matches Ok(
            Operand::Literal(Literal::Qubit(n)),
        ) && n == q.0),
        q.0 > u32::MAX ==> lower_value(ValueModel::Qubit(q)) == Err::<Operand, Fault>(
            Fault::QubitIdTooLarge,
        ),
        id <= u32::MAX ==> (lower_value(ValueModel::Result(MeasurementResult::Id(id))) matches Ok(
            Operand::Literal(Literal::Result(n)),
        ) && n == id),
        id > u32::MAX ==> lower_value(ValueModel::Result(MeasurementResult::Id(id))) == Err::<
            Operand,
            Fault,
        >(Fault::ResultIdTooLarge),
{
}

/// Global items, tuples, variables and values that only the classical evaluator knows have no
/// operand.
pub proof fn law_other_values_have_no_operand(
    id: StoreItemId,
    functors: FunctorApp,
    held: HeldValue,
    elements: Seq<ValueModel>,
    v: Var,
)
    ensures
        lower_value(ValueModel::Global(id, functors)) == Err::<Operand, Fault>(
            Fault::UnmappableValue,
        ),
        lower_value(ValueModel::Held(held)) == Err::<Operand, Fault>(Fault::UnmappableValue),
        lower_value(ValueModel::Tuple(elements)) == Err::<Operand, Fault>(Fault::UnmappableValue),
        lower_value(ValueModel::Var(v)) == Err::<Operand, Fault>(Fault::UnmappableValue),
{
}

/// The five primitive types that the generated program knows are kept; the other primitive types,
/// and all types that are not primitive, are faults.
pub proof fn law_types_are_kept(ty: fir::Ty)
    ensures
        ty == fir::Ty::Prim(Prim::Bool) <==> lower_type(ty) == Ok::<rir::Ty, Fault>(
            rir::Ty::Boolean,
        ),
        ty == fir::Ty::Prim(Prim::Double) <==> lower_type(ty) == Ok::<rir::Ty, Fault>(
            rir::Ty::Double,
        ),
        ty == fir::Ty::Prim(Prim::Int) <==> lower_type(ty) == Ok::<rir::Ty, Fault>(
            rir::Ty::Integer,
        ),
        ty == fir::Ty::Prim(Prim::Qubit) <==> lower_type(ty) == Ok::<rir::Ty, Fault>(
            rir::Ty::Qubit,
        ),
        ty == fir::Ty::Prim(Prim::Result) <==> lower_type(ty) == Ok::<rir::Ty, Fault>(
            rir::Ty::Result,
        ),
        ty is Prim && lower_type(ty) is Err ==> lower_type(ty) == Err::<rir::Ty, Fault>(
            Fault::UnsupportedPrimitiveType,
        ),
        !(ty is Prim) ==> lower_type(ty) == Err::<rir::Ty, Fault>(Fault::NotAPrimitiveType),
{
}

/// Parameter types are lowered one by one and stay in order. When one cannot be lowered, the
/// first such one decides the fault.
pub proof fn law_parameter_types(tys: Seq<fir::Ty>)
    ensures
        match lower_types(tys, 0) {
            Ok(lowered) => {
                &&& lowered.len() == tys.len()
                &&& forall|i: int|
                    0 <= i < tys.len() ==> lower_type(tys[i]) == Ok::<rir::Ty, Fault>(
                        #[trigger] lowered[i],
                    )
            },
            Err(fault) => exists|i: int|
                {
                    &&& 0 <= i < tys.len()
                    &&& lower_type(#[trigger] tys[i]) == Err::<rir::Ty, Fault>(fault)
                    &&& forall|j: int| 0 <= j < i ==> lower_type(#[trigger] tys[j]) is Ok
                },
        },
{
    lemma_parameter_types_from(tys, 0);
}

proof fn lemma_parameter_types_from(tys: Seq<fir::Ty>, k: int)
    requires
        0 <= k <= tys.len(),
    ensures
        match lower_types(tys, k) {
            Ok(lowered) => {
                &&& lowered.len() == tys.len() - k
                &&& forall|i: int|
                    0 <= i < lowered.len() ==> lower_type(tys[k + i]) == Ok::<rir::Ty, Fault>(
                        #[trigger] lowered[i],
                    )
            },
            Err(fault) => exists|i: int|
                {
                    &&& k <= i < tys.len()
                    &&& lower_type(#[trigger] tys[i]) == Err::<rir::Ty, Fault>(fault)
                    &&& forall|j: int| k <= j < i ==> lower_type(#[trigger] tys[j]) is Ok
                },
        },
    decreases tys.len() - k,
{
    if k < tys.len() {
        lemma_parameter_types_from(tys, k + 1);
        if let Ok(ty) = lower_type(tys[k]) {
            if let Ok(rest) = lower_types(tys, k + 1) {
                let lowered = seq![ty] + rest;
                assert forall|i: int| 0 <= i < lowered.len() implies lower_type(tys[k + i]) == Ok::<
                    rir::Ty,
                    Fault,
                >(#[trigger] lowered[i]) by {
                    if i > 0 {
                        assert(lowered[i] == rest[i - 1]);
                    }
                }
            }
        } else {
            assert(lower_type(tys[k]) is Err);
        }
    }
}

/// The arguments of a call become operands: the elements of a tuple one by one and in order, any
/// other value by itself. When one has no operand, the first such one decides the fault.
pub proof fn law_call_operands(args: ValueModel)
    ensures
        args matches ValueModel::Tuple(elements) ==> match call_operands(args) {
            Ok(operands) => {
                &&& operands.len() == elements.len()
                &&& forall|i: int|
                    0 <= i < elements.len() ==> lower_value(elements[i]) == Ok::<Operand, Fault>(
                        #[trigger] operands[i],
                    )
            },
            Err(fault) => exists|i: int|
                {
                    &&& 0 <= i < elements.len()
                    &&& lower_value(#[trigger] elements[i]) == Err::<Operand, Fault>(fault)
                    &&& forall|j: int| 0 <= j < i ==> lower_value(#[trigger] elements[j]) is Ok
                },
        },
        !(args is Tuple) ==> match call_operands(args) {
            Ok(operands) => operands.len() == 1 && lower_value(args) == Ok::<Operand, Fault>(
                operands[0],
            ),
            Err(fault) => lower_value(args) == Err::<Operand, Fault>(fault),
        },
{
    if let ValueModel::Tuple(elements) = args {
        lemma_operands_from(elements, 0);
    }
}

proof fn lemma_operands_from(values: Seq<ValueModel>, k: int)
    requires
        0 <= k <= values.len(),
    ensures
        match lower_values(values, k) {
            Ok(lowered) => {
                &&& lowered.len() == values.len() - k
                &&& forall|i: int|
                    0 <= i < lowered.len() ==> lower_value(values[k + i]) == Ok::<Operand, Fault>(
                        #[trigger] lowered[i],
                    )
            },
            Err(fault) => exists|i: int|
                {
                    &&& k <= i < values.len()
                    &&& lower_value(#[trigger] values[i]) == Err::<Operand, Fault>(fault)
                    &&& forall|j: int| k <= j < i ==> lower_value(#[trigger] values[j]) is Ok
                },
        },
    decreases values.len() - k,
{
    if k < values.len() {
        lemma_operands_from(values, k + 1);
        if let Ok(operand) = lower_value(values[k]) {
            if let Ok(rest) = lower_values(values, k + 1) {
                let lowered = seq![operand] + rest;
                assert forall|i: int| 0 <= i < lowered.len() implies lower_value(values[k + i])
                    == Ok::<Operand, Fault>(#[trigger] lowered[i]) by {
                    if i > 0 {
                        assert(lowered[i] == rest[i - 1]);
                    }
                }
            }
        } else {
            assert(lower_value(values[k]) is Err);
        }
    }
}

/// The callable that stands for an intrinsic has the intrinsic's name and parameter types, its
/// output type unless that is unit, no body, and the call type of a reset exactly if it is the
/// reset. It exists exactly if these types can be lowered.
pub proof fn law_intrinsic_callable(decl: CallableDecl)
    ensures
        intrinsic_callable(decl) matches Ok(callable) ==> {
            &&& callable.name == decl.name.name@
            &&& callable.input_type.len() == decl.input_params@.len()
            &&& forall|i: int|
                0 <= i < decl.input_params@.len() ==> lower_type(decl.input_params@[i]) == Ok::<
                    rir::Ty,
                    Fault,
                >(#[trigger] callable.input_type[i])
            &&& callable.output_type is None <==> (decl.output is Tuple
                && decl.output->Tuple_0@.len() == 0)
            &&& callable.output_type matches Some(ty) ==> lower_type(decl.output) == Ok::<
                rir::Ty,
                Fault,
            >(ty)
            &&& callable.body is None
            &&& callable.call_type == CallableType::Reset <==> decl.name.name@
                == "__quantum__qis__reset__body"@
            &&& callable.call_type == CallableType::Reset || callable.call_type
                == CallableType::Regular
        },
        intrinsic_callable(decl) matches Err(fault) ==> {
            ||| lower_types(decl.input_params@, 0) == Err::<Seq<rir::Ty>, Fault>(fault)
            ||| {
                &&& lower_types(decl.input_params@, 0) is Ok
                &&& !(decl.output is Tuple && decl.output->Tuple_0@.len() == 0)
                &&& lower_type(decl.output) == Err::<rir::Ty, Fault>(fault)
            }
        },
{
    law_parameter_types(decl.input_params@);
}

/// The callables of the runtime: both measurements take a qubit and the result that receives the
/// outcome, the readout takes a result and gives a truth value, and none has a body.
pub proof fn law_runtime_callables()
    ensures
        mz_model().name == "__quantum__qis__mz__body"@,
        mresetz_model().name == "__quantum__qis__mresetz__body"@,
        read_result_model().name == "__quantum__rt__read_result__body"@,
        mz_model().input_type == seq![rir::Ty::Qubit, rir::Ty::Result],
        mresetz_model().input_type == seq![rir::Ty::Qubit, rir::Ty::Result],
        read_result_model().input_type == seq![rir::Ty::Result],
        mz_model().output_type is None,
        mresetz_model().output_type is None,
        read_result_model().output_type == Some(rir::Ty::Boolean),
        mz_model().body is None,
        mresetz_model().body is None,
        read_result_model().body is None,
        mz_model().call_type == CallableType::Measurement,
        mresetz_model().call_type == CallableType::Measurement,
        read_result_model().call_type == CallableType::Readout,
{
}

/// How each operator without instructions is described.
pub proof fn law_operator_descriptions()
    ensures
        bin_op_text(BinOp::Add) == "BinOp Expr (Add)"@,
        bin_op_text(BinOp::AndB) == "BinOp Expr (AndB)"@,
        bin_op_text(BinOp::AndL) == "BinOp Expr (AndL)"@,
        bin_op_text(BinOp::Div) == "BinOp Expr (Div)"@,
        bin_op_text(BinOp::Exp) == "BinOp Expr (Exp)"@,
        bin_op_text(BinOp::Gt) == "BinOp Expr (Gt)"@,
        bin_op_text(BinOp::Gte) == "BinOp Expr (Gte)"@,
        bin_op_text(BinOp::Lt) == "BinOp Expr (Lt)"@,
        bin_op_text(BinOp::Lte) == "BinOp Expr (Lte)"@,
        bin_op_text(BinOp::Mod) == "BinOp Expr (Mod)"@,
        bin_op_text(BinOp::Mul) == "BinOp Expr (Mul)"@,
        bin_op_text(BinOp::OrB) == "BinOp Expr (OrB)"@,
        bin_op_text(BinOp::OrL) == "BinOp Expr (OrL)"@,
        bin_op_text(BinOp::Shl) == "BinOp Expr (Shl)"@,
        bin_op_text(BinOp::Shr) == "BinOp Expr (Shr)"@,
        bin_op_text(BinOp::Sub) == "BinOp Expr (Sub)"@,
        bin_op_text(BinOp::XorB) == "BinOp Expr (XorB)"@,
        bin_op_text(BinOp::Eq) == "BinOp Expr (Eq)"@,
        bin_op_text(BinOp::Neq) == "BinOp Expr (Neq)"@,
{
}

} // verus!
