//! Which errors a failed evaluation can report.

use crate::error::ErrorModel;
use crate::fir::{
    BinOp, BlockId, CallableDecl, CallableImpl, Expr, ExprId, ExprKind, FunctorApp, Global,
    PackageId, PatId, PatKind, Specializations, StmtId, StmtKind, StoreItemId,
};
use crate::lowering::spec_decl;
use crate::semantics::{
    bind_expr_to_pat, bind_exprs_to_pats, call_intrinsic, call_spec, eval_bin_op, eval_call,
    eval_expr, eval_tuple, evaluate, initial_state, try_eval_expr, visit_block, visit_expr,
    visit_stmt, visit_stmts, InputsModel, OutcomeModel, StateModel,
};
use crate::value::ValueModel;
use vstd::prelude::*;

verus! {

/// Whether an error is met by itself, and not because a part failed.
pub open spec fn is_cause(error: ErrorModel) -> bool {
    error is EvaluationFailed || error is Unimplemented
}

/// Whether the first error, if there is one, is a cause.
pub open spec fn starts_with_cause(st: StateModel) -> bool {
    st.errors.len() > 0 ==> is_cause(st.errors[0])
}

/// Whether the first error, once that of the result is added, is a cause; a value comes without
/// errors.
pub open spec fn result_has_cause(st: StateModel, result: Result<ValueModel, ErrorModel>) -> bool {
    match result {
        Ok(_) => st.errors.len() == 0,
        Err(error) => if st.errors.len() == 0 {
            is_cause(error)
        } else {
            is_cause(st.errors[0])
        },
    }
}

/// A failed evaluation reports the cause: that the classical evaluator failed, or that something
/// is not implemented.
pub proof fn law_failure_reports_its_cause(inputs: InputsModel, depth: nat, package: PackageId)
    ensures
        evaluate(inputs, depth, package) matches OutcomeModel::Failed(error) ==> is_cause(error),
{
    if let Some(entry_package) = inputs.store.package(package) {
        if let Some(entry) = entry_package.entry {
            lemma_visit_expr_cause(inputs, depth, initial_state(package), entry);
        }
    }
}

proof fn lemma_visit_expr_cause(inputs: InputsModel, depth: nat, st: StateModel, id: ExprId)
    requires
        st.errors.len() == 0,
    ensures
        visit_expr(inputs, depth, st, id) matches Ok(st1) ==> starts_with_cause(st1),
    decreases depth, 0int, 0int,
{
    if depth > 0 {
        if let Some(kind) = inputs.compute_properties.expr(st.package(), id) {
            if let Some(expr) = inputs.store.expr(st.package(), id) {
                if !(kind is Classical) {
                    lemma_eval_expr_cause(inputs, (depth - 1) as nat, st, expr);
                }
            }
        }
    }
}

proof fn lemma_eval_expr_cause(inputs: InputsModel, depth: nat, st: StateModel, expr: Expr)
    requires
        st.errors.len() == 0,
    ensures
        eval_expr(inputs, depth, st, expr) matches Ok((st1, result)) ==> result_has_cause(
            st1,
            result,
        ),
    decreases depth, 6int, 0int,
{
    match expr.kind {
        ExprKind::BinOp(op, lhs, rhs) => {
            lemma_eval_bin_op_cause(inputs, depth, st, expr, op, lhs, rhs);
        },
        ExprKind::Call(callee, args) => {
            lemma_eval_call_cause(inputs, depth, st, callee, args);
        },
        ExprKind::Tuple(exprs) => {
            lemma_eval_tuple_cause(inputs, depth, st, exprs@, 0, Seq::empty());
        },
        _ => {},
    }
}

proof fn lemma_eval_bin_op_cause(
    inputs: InputsModel,
    depth: nat,
    st: StateModel,
    expr: Expr,
    op: BinOp,
    lhs: ExprId,
    rhs: ExprId,
)
    requires
        st.errors.len() == 0,
    ensures
        eval_bin_op(inputs, depth, st, expr, op, lhs, rhs) matches Ok((st1, result))
            ==> result_has_cause(st1, result),
    decreases depth, 5int, 0int,
{
    lemma_visit_expr_cause(inputs, depth, st, lhs);
    if let Ok((st1, Some(_))) = try_eval_expr(inputs, depth, st, lhs) {
        lemma_visit_expr_cause(inputs, depth, st1, rhs);
    }
}

proof fn lemma_eval_call_cause(
    inputs: InputsModel,
    depth: nat,
    st: StateModel,
    callee: ExprId,
    args: ExprId,
)
    requires
        st.errors.len() == 0,
    ensures
        eval_call(inputs, depth, st, callee, args) matches Ok((st1, result)) ==> result_has_cause(
            st1,
            result,
        ),
    decreases depth, 5int, 0int,
{
    lemma_visit_expr_cause(inputs, depth, st, callee);
    if let Ok((st1, Some(callable))) = try_eval_expr(inputs, depth, st, callee) {
        lemma_visit_expr_cause(inputs, depth, st1, args);
        if let Ok((st2, Some(args_value))) = try_eval_expr(inputs, depth, st1, args) {
            if let ValueModel::Global(id, functors) = callable {
                if let Some(Global::Callable(decl)) = inputs.store.global(id) {
                    if let CallableImpl::Spec(specializations) = decl.implementation {
                        lemma_call_spec_cause(
                            inputs,
                            depth,
                            st2,
                            id,
                            functors,
                            decl,
                            specializations,
                        );
                    } else {
                        lemma_call_intrinsic_errors(st2, decl, args_value);
                    }
                }
            }
        }
    }
}

/// Calling an intrinsic meets no error.
proof fn lemma_call_intrinsic_errors(st: StateModel, decl: CallableDecl, args: ValueModel)
    ensures
        call_intrinsic(st, decl, args) matches Ok((st1, _)) ==> st1.errors == st.errors,
{
}

proof fn lemma_call_spec_cause(
    inputs: InputsModel,
    depth: nat,
    st: StateModel,
    id: StoreItemId,
    functors: FunctorApp,
    decl: CallableDecl,
    specializations: Specializations,
)
    requires
        st.errors.len() == 0,
    ensures
        call_spec(inputs, depth, st, id, functors, decl, specializations) matches Ok((st1, result))
            ==> result_has_cause(st1, result),
    decreases depth, 4int, 0int,
{
    if let Ok(running) = spec_decl(specializations, functors) {
        lemma_visit_block_cause(inputs, depth, st.push_call(id, functors), running.block);
    }
}

proof fn lemma_eval_tuple_cause(
    inputs: InputsModel,
    depth: nat,
    st: StateModel,
    exprs: Seq<ExprId>,
    i: int,
    values: Seq<ValueModel>,
)
    requires
        st.errors.len() == 0,
    ensures
        eval_tuple(inputs, depth, st, exprs, i, values) matches Ok((st1, result))
            ==> result_has_cause(st1, result),
    decreases depth, 2int, exprs.len() - i,
{
    if 0 <= i < exprs.len() {
        lemma_visit_expr_cause(inputs, depth, st, exprs[i]);
        if let Ok((st1, Some(value))) = try_eval_expr(inputs, depth, st, exprs[i]) {
            lemma_eval_tuple_cause(inputs, depth, st1, exprs, i + 1, values.push(value));
        }
    }
}

proof fn lemma_visit_block_cause(inputs: InputsModel, depth: nat, st: StateModel, block: BlockId)
    requires
        st.errors.len() == 0,
    ensures
        visit_block(inputs, depth, st, block) matches Ok(st1) ==> starts_with_cause(st1),
    decreases depth, 3int, 0int,
{
    if let Some(block) = inputs.store.block(st.package(), block) {
        lemma_visit_stmts_cause(inputs, depth, st, block.stmts@, 0);
    }
}

proof fn lemma_visit_stmts_cause(
    inputs: InputsModel,
    depth: nat,
    st: StateModel,
    stmts: Seq<StmtId>,
    i: int,
)
    requires
        st.errors.len() == 0,
    ensures
        visit_stmts(inputs, depth, st, stmts, i) matches Ok(st1) ==> starts_with_cause(st1),
    decreases depth, 2int, stmts.len() - i,
{
    if 0 <= i < stmts.len() {
        lemma_visit_stmt_cause(inputs, depth, st, stmts[i]);
        if let Ok(st1) = visit_stmt(inputs, depth, st, stmts[i]) {
            if st1.errors.len() == 0 {
                lemma_visit_stmts_cause(inputs, depth, st1, stmts, i + 1);
            }
        }
    }
}

proof fn lemma_visit_stmt_cause(inputs: InputsModel, depth: nat, st: StateModel, id: StmtId)
    requires
        st.errors.len() == 0,
    ensures
        visit_stmt(inputs, depth, st, id) matches Ok(st1) ==> starts_with_cause(st1),
    decreases depth, 1int, 0int,
{
    if let Some(stmt) = inputs.store.stmt(st.package(), id) {
        match stmt.kind {
            StmtKind::Expr(expr) => {
                lemma_visit_expr_cause(inputs, depth, st, expr);
            },
            StmtKind::Semi(expr) => {
                lemma_visit_expr_cause(inputs, depth, st, expr);
            },
            StmtKind::Local(pat, expr) => {
                lemma_visit_expr_cause(inputs, depth, st, expr);
                if let Ok(st1) = visit_expr(inputs, depth, st, expr) {
                    lemma_bind_errors(inputs, depth, st1, pat, expr);
                }
            },
            StmtKind::Item(_) => {},
        }
    }
}

/// Binding meets no error.
proof fn lemma_bind_errors(
    inputs: InputsModel,
    depth: nat,
    st: StateModel,
    pat: PatId,
    expr: ExprId,
)
    ensures
        bind_expr_to_pat(inputs, depth, st, pat, expr) matches Ok(st1) ==> st1.errors == st.errors,
    decreases depth, 0int, 0int,
{
    if let Ok(_) = bind_expr_to_pat(inputs, depth, st, pat, expr) {
        if let PatKind::Tuple(pats) = inputs.store.pat(st.package(), pat)->Some_0.kind {
            if let ExprKind::Tuple(exprs) = inputs.store.expr(st.package(), expr)->Some_0.kind {
                lemma_bind_all_errors(inputs, (depth - 1) as nat, st, pats@, exprs@, 0);
            }
        }
    }
}

proof fn lemma_bind_all_errors(
    inputs: InputsModel,
    depth: nat,
    st: StateModel,
    pats: Seq<PatId>,
    exprs: Seq<ExprId>,
    i: int,
)
    ensures
        bind_exprs_to_pats(inputs, depth, st, pats, exprs, i) matches Ok(st1) ==> st1.errors
            == st.errors,
    decreases depth, 1int, pats.len() - i,
{
    if 0 <= i < pats.len() {
        lemma_bind_errors(inputs, depth, st, pats[i], exprs[i]);
        if let Ok(st1) = bind_expr_to_pat(inputs, depth, st, pats[i], exprs[i]) {
            lemma_bind_all_errors(inputs, depth, st1, pats, exprs, i + 1);
        }
    }
}

} // verus!
