//! Why an evaluation may be repeated with more replies and a higher depth limit: whatever was
//! decided stays decided.

use crate::error::Stop;
use crate::fir::{
    BinOp, BlockId, CallableDecl, CallableImpl, Expr, ExprId, ExprKind, FunctorApp, Global, PatId,
    PatKind, Specializations, StmtId, StmtKind, StoreItemId,
};
use crate::lowering::spec_decl;
use crate::semantics::{
    bind_expr_to_pat, bind_exprs_to_pats, call_spec, eval_bin_op, eval_call, eval_expr, eval_tuple,
    evaluate, initial_state, try_eval_expr, visit_block, visit_expr, visit_stmt, visit_stmts,
    InputsModel, OutcomeModel, StateModel,
};
use crate::value::ValueModel;
use vstd::prelude::*;

verus! {

/// Whether two evaluations read the same program, the second one with at least the replies of
/// the first.
pub open spec fn extends_inputs(inputs: InputsModel, more: InputsModel) -> bool {
    &&& more.store == inputs.store
    &&& more.compute_properties == inputs.compute_properties
    &&& inputs.replies.is_prefix_of(more.replies)
}

/// Whether a step that ended this way ends the same way when it is given more: reaching a state
/// and meeting a fault are final, waiting for a reply is final as long as no reply is added, and
/// reaching the depth limit is final as long as the limit is not raised.
pub open spec fn is_final<T>(
    flow: Result<T, Stop>,
    same_replies: bool,
    same_depth: bool,
) -> bool {
    match flow {
        Ok(_) => true,
        Err(Stop::Fault(_)) => true,
        Err(Stop::Pending(_)) => same_replies,
        Err(Stop::DepthLimit) => same_depth,
    }
}

proof fn lemma_visit_expr_final(
    inputs: InputsModel,
    more: InputsModel,
    depth: nat,
    deeper: nat,
    st: StateModel,
    id: ExprId,
)
    requires
        extends_inputs(inputs, more),
        depth <= deeper,
        is_final(visit_expr(inputs, depth, st, id), inputs.replies == more.replies, depth == deeper),
    ensures
        visit_expr(more, deeper, st, id) == visit_expr(inputs, depth, st, id),
    decreases depth, 0int, 0int,
{
    if depth > 0 {
        if let Some(kind) = inputs.compute_properties.expr(st.package(), id) {
            if let Some(expr) = inputs.store.expr(st.package(), id) {
                if !(kind is Classical) {
                    lemma_eval_expr_final(
                        inputs,
                        more,
                        (depth - 1) as nat,
                        (deeper - 1) as nat,
                        st,
                        expr,
                    );
                }
            }
        }
    }
}

proof fn lemma_eval_expr_final(
    inputs: InputsModel,
    more: InputsModel,
    depth: nat,
    deeper: nat,
    st: StateModel,
    expr: Expr,
)
    requires
        extends_inputs(inputs, more),
        depth <= deeper,
        is_final(eval_expr(inputs, depth, st, expr), inputs.replies == more.replies, depth == deeper),
    ensures
        eval_expr(more, deeper, st, expr) == eval_expr(inputs, depth, st, expr),
    decreases depth, 6int, 0int,
{
    match expr.kind {
        ExprKind::BinOp(op, lhs, rhs) => {
            lemma_eval_bin_op_final(inputs, more, depth, deeper, st, expr, op, lhs, rhs);
        },
        ExprKind::Call(callee, args) => {
            lemma_eval_call_final(inputs, more, depth, deeper, st, callee, args);
        },
        ExprKind::Tuple(exprs) => {
            lemma_eval_tuple_final(inputs, more, depth, deeper, st, exprs@, 0, Seq::empty());
        },
        _ => {},
    }
}

proof fn lemma_eval_bin_op_final(
    inputs: InputsModel,
    more: InputsModel,
    depth: nat,
    deeper: nat,
    st: StateModel,
    expr: Expr,
    op: BinOp,
    lhs: ExprId,
    rhs: ExprId,
)
    requires
        extends_inputs(inputs, more),
        depth <= deeper,
        is_final(
            eval_bin_op(inputs, depth, st, expr, op, lhs, rhs),
            inputs.replies == more.replies,
            depth == deeper,
        ),
    ensures
        eval_bin_op(more, deeper, st, expr, op, lhs, rhs) == eval_bin_op(
            inputs,
            depth,
            st,
            expr,
            op,
            lhs,
            rhs,
        ),
    decreases depth, 5int, 0int,
{
    lemma_visit_expr_final(inputs, more, depth, deeper, st, lhs);
    if let Ok((st1, Some(_))) = try_eval_expr(inputs, depth, st, lhs) {
        lemma_visit_expr_final(inputs, more, depth, deeper, st1, rhs);
    }
}

proof fn lemma_eval_call_final(
    inputs: InputsModel,
    more: InputsModel,
    depth: nat,
    deeper: nat,
    st: StateModel,
    callee: ExprId,
    args: ExprId,
)
    requires
        extends_inputs(inputs, more),
        depth <= deeper,
        is_final(
            eval_call(inputs, depth, st, callee, args),
            inputs.replies == more.replies,
            depth == deeper,
        ),
    ensures
        eval_call(more, deeper, st, callee, args) == eval_call(inputs, depth, st, callee, args),
    decreases depth, 5int, 0int,
{
    lemma_visit_expr_final(inputs, more, depth, deeper, st, callee);
    if let Ok((st1, Some(callable_value))) = try_eval_expr(inputs, depth, st, callee) {
        lemma_visit_expr_final(inputs, more, depth, deeper, st1, args);
        if let Ok((st2, Some(_))) = try_eval_expr(inputs, depth, st1, args) {
            if let ValueModel::Global(id, functors) = callable_value {
                if let Some(Global::Callable(decl)) = inputs.store.global(id) {
                    if let CallableImpl::Spec(specializations) = decl.implementation {
                        lemma_call_spec_final(
                            inputs,
                            more,
                            depth,
                            deeper,
                            st2,
                            id,
                            functors,
                            decl,
                            specializations,
                        );
                    }
                }
            }
        }
    }
}

proof fn lemma_call_spec_final(
    inputs: InputsModel,
    more: InputsModel,
    depth: nat,
    deeper: nat,
    st: StateModel,
    id: StoreItemId,
    functors: FunctorApp,
    decl: CallableDecl,
    specializations: Specializations,
)
    requires
        extends_inputs(inputs, more),
        depth <= deeper,
        is_final(
            call_spec(inputs, depth, st, id, functors, decl, specializations),
            inputs.replies == more.replies,
            depth == deeper,
        ),
    ensures
        call_spec(more, deeper, st, id, functors, decl, specializations) == call_spec(
            inputs,
            depth,
            st,
            id,
            functors,
            decl,
            specializations,
        ),
    decreases depth, 4int, 0int,
{
    if let Ok(running) = spec_decl(specializations, functors) {
        if st.context.next_scope < usize::MAX {
            let inner = st.push_call(id, functors);
            lemma_visit_block_final(inputs, more, depth, deeper, inner, running.block);
        }
    }
}

proof fn lemma_eval_tuple_final(
    inputs: InputsModel,
    more: InputsModel,
    depth: nat,
    deeper: nat,
    st: StateModel,
    exprs: Seq<ExprId>,
    i: int,
    values: Seq<ValueModel>,
)
    requires
        extends_inputs(inputs, more),
        depth <= deeper,
        is_final(
            eval_tuple(inputs, depth, st, exprs, i, values),
            inputs.replies == more.replies,
            depth == deeper,
        ),
    ensures
        eval_tuple(more, deeper, st, exprs, i, values) == eval_tuple(
            inputs,
            depth,
            st,
            exprs,
            i,
            values,
        ),
    decreases depth, 2int, exprs.len() - i,
{
    if 0 <= i < exprs.len() {
        lemma_visit_expr_final(inputs, more, depth, deeper, st, exprs[i]);
        assert(try_eval_expr(more, deeper, st, exprs[i]) == try_eval_expr(
            inputs,
            depth,
            st,
            exprs[i],
        ));
        if let Ok((st1, Some(value))) = try_eval_expr(inputs, depth, st, exprs[i]) {
            lemma_eval_tuple_final(
                inputs,
                more,
                depth,
                deeper,
                st1,
                exprs,
                i + 1,
                values.push(value),
            );
        }
    }
}

proof fn lemma_visit_block_final(
    inputs: InputsModel,
    more: InputsModel,
    depth: nat,
    deeper: nat,
    st: StateModel,
    block: BlockId,
)
    requires
        extends_inputs(inputs, more),
        depth <= deeper,
        is_final(visit_block(inputs, depth, st, block), inputs.replies == more.replies, depth == deeper),
    ensures
        visit_block(more, deeper, st, block) == visit_block(inputs, depth, st, block),
    decreases depth, 3int, 0int,
{
    if let Some(block) = inputs.store.block(st.package(), block) {
        lemma_visit_stmts_final(inputs, more, depth, deeper, st, block.stmts@, 0);
    }
}

proof fn lemma_visit_stmts_final(
    inputs: InputsModel,
    more: InputsModel,
    depth: nat,
    deeper: nat,
    st: StateModel,
    stmts: Seq<StmtId>,
    i: int,
)
    requires
        extends_inputs(inputs, more),
        depth <= deeper,
        is_final(visit_stmts(inputs, depth, st, stmts, i), inputs.replies == more.replies, depth == deeper),
    ensures
        visit_stmts(more, deeper, st, stmts, i) == visit_stmts(inputs, depth, st, stmts, i),
    decreases depth, 2int, stmts.len() - i,
{
    if 0 <= i < stmts.len() {
        lemma_visit_stmt_final(inputs, more, depth, deeper, st, stmts[i]);
        if let Ok(st1) = visit_stmt(inputs, depth, st, stmts[i]) {
            if st1.errors.len() == 0 {
                lemma_visit_stmts_final(inputs, more, depth, deeper, st1, stmts, i + 1);
            }
        }
    }
}

proof fn lemma_visit_stmt_final(
    inputs: InputsModel,
    more: InputsModel,
    depth: nat,
    deeper: nat,
    st: StateModel,
    id: StmtId,
)
    requires
        extends_inputs(inputs, more),
        depth <= deeper,
        is_final(visit_stmt(inputs, depth, st, id), inputs.replies == more.replies, depth == deeper),
    ensures
        visit_stmt(more, deeper, st, id) == visit_stmt(inputs, depth, st, id),
    decreases depth, 1int, 0int,
{
    if let Some(kind) = inputs.compute_properties.stmt(st.package(), id) {
        if !(kind is Classical) {
            if let Some(stmt) = inputs.store.stmt(st.package(), id) {
                match stmt.kind {
                    StmtKind::Expr(expr) => {
                        lemma_visit_expr_final(inputs, more, depth, deeper, st, expr);
                    },
                    StmtKind::Semi(expr) => {
                        lemma_visit_expr_final(inputs, more, depth, deeper, st, expr);
                    },
                    StmtKind::Local(pat, expr) => {
                        lemma_visit_expr_final(inputs, more, depth, deeper, st, expr);
                        if let Ok(st1) = visit_expr(inputs, depth, st, expr) {
                            lemma_bind_final(inputs, more, depth, deeper, st1, pat, expr);
                        }
                    },
                    StmtKind::Item(_) => {},
                }
            }
        }
    }
}

proof fn lemma_bind_final(
    inputs: InputsModel,
    more: InputsModel,
    depth: nat,
    deeper: nat,
    st: StateModel,
    pat: PatId,
    expr: ExprId,
)
    requires
        extends_inputs(inputs, more),
        depth <= deeper,
        is_final(
            bind_expr_to_pat(inputs, depth, st, pat, expr),
            inputs.replies == more.replies,
            depth == deeper,
        ),
    ensures
        bind_expr_to_pat(more, deeper, st, pat, expr) == bind_expr_to_pat(
            inputs,
            depth,
            st,
            pat,
            expr,
        ),
    decreases depth, 0int, 0int,
{
    if depth > 0 {
        if let Some(pat) = inputs.store.pat(st.package(), pat) {
            if let PatKind::Tuple(pats) = pat.kind {
                if let Some(expr) = inputs.store.expr(st.package(), expr) {
                    if let ExprKind::Tuple(exprs) = expr.kind {
                        if pats@.len() == exprs@.len() {
                            lemma_bind_all_final(
                                inputs,
                                more,
                                (depth - 1) as nat,
                                (deeper - 1) as nat,
                                st,
                                pats@,
                                exprs@,
                                0,
                            );
                        }
                    }
                }
            }
        }
    }
}

proof fn lemma_bind_all_final(
    inputs: InputsModel,
    more: InputsModel,
    depth: nat,
    deeper: nat,
    st: StateModel,
    pats: Seq<PatId>,
    exprs: Seq<ExprId>,
    i: int,
)
    requires
        extends_inputs(inputs, more),
        depth <= deeper,
        is_final(
            bind_exprs_to_pats(inputs, depth, st, pats, exprs, i),
            inputs.replies == more.replies,
            depth == deeper,
        ),
    ensures
        bind_exprs_to_pats(more, deeper, st, pats, exprs, i) == bind_exprs_to_pats(
            inputs,
            depth,
            st,
            pats,
            exprs,
            i,
        ),
    decreases depth, 1int, pats.len() - i,
{
    if 0 <= i < pats.len() {
        lemma_bind_final(inputs, more, depth, deeper, st, pats[i], exprs[i]);
        if let Ok(st1) = bind_expr_to_pat(inputs, depth, st, pats[i], exprs[i]) {
            lemma_bind_all_final(inputs, more, depth, deeper, st1, pats, exprs, i + 1);
        }
    }
}

/// Whether the outcome of an evaluation is decided for good.
pub open spec fn is_decided(outcome: OutcomeModel) -> bool {
    match outcome {
        OutcomeModel::Complete(_) => true,
        OutcomeModel::Failed(_) => true,
        OutcomeModel::Stopped(Stop::Fault(_)) => true,
        OutcomeModel::Stopped(_) => false,
    }
}

/// A decided outcome does not change when replies are added or the depth limit is raised.
pub proof fn law_decided_outcome_is_kept(
    inputs: InputsModel,
    more: InputsModel,
    depth: nat,
    deeper: nat,
    package: usize,
)
    requires
        extends_inputs(inputs, more),
        depth <= deeper,
        is_decided(evaluate(inputs, depth, package)),
    ensures
        evaluate(more, deeper, package) == evaluate(inputs, depth, package),
{
    if let Some(entry_package) = inputs.store.package(package) {
        if let Some(entry) = entry_package.entry {
            lemma_visit_expr_final(inputs, more, depth, deeper, initial_state(package), entry);
        }
    }
}

/// The request that an evaluation waits for does not change when the depth limit is raised.
pub proof fn law_pending_request_is_kept(
    inputs: InputsModel,
    depth: nat,
    deeper: nat,
    package: usize,
)
    requires
        depth <= deeper,
        evaluate(inputs, depth, package) matches OutcomeModel::Stopped(Stop::Pending(_)),
    ensures
        evaluate(inputs, deeper, package) == evaluate(inputs, depth, package),
{
    if let Some(entry_package) = inputs.store.package(package) {
        if let Some(entry) = entry_package.entry {
            lemma_visit_expr_final(
                inputs,
                inputs,
                depth,
                deeper,
                initial_state(package),
                entry,
            );
        }
    }
}

/// Every reply answers a request: an evaluation that is decided with all replies, or waits for a
/// further one, either is decided with a shorter list of them already or waits for the next one
/// there.
pub proof fn law_replies_answer_requests(
    inputs: InputsModel,
    depth: nat,
    package: usize,
    count: int,
)
    requires
        evaluate(inputs, depth, package) != OutcomeModel::Stopped(Stop::DepthLimit),
        0 <= count <= inputs.replies.len(),
    ensures
        ({
            let fewer = InputsModel { replies: inputs.replies.take(count), ..inputs };
            let outcome = evaluate(fewer, depth, package);
            ||| outcome matches OutcomeModel::Stopped(Stop::Pending(_))
            ||| is_decided(outcome) && evaluate(inputs, depth, package) == outcome
        }),
{
    let fewer = InputsModel { replies: inputs.replies.take(count), ..inputs };
    assert(extends_inputs(fewer, inputs));
    if let Some(entry_package) = inputs.store.package(package) {
        if let Some(entry) = entry_package.entry {
            let st = initial_state(package);
            if !(visit_expr(fewer, depth, st, entry) matches Err(Stop::Pending(_))) {
                lemma_visit_expr_final(fewer, inputs, depth, depth, st, entry);
            }
        }
    }
}

/// An evaluation that waits for a further reply was waiting with each shorter list of replies.
pub proof fn law_requests_come_one_by_one(
    inputs: InputsModel,
    depth: nat,
    package: usize,
    count: int,
)
    requires
        evaluate(inputs, depth, package) matches OutcomeModel::Stopped(Stop::Pending(_)),
        0 <= count <= inputs.replies.len(),
    ensures
        evaluate(
            InputsModel { replies: inputs.replies.take(count), ..inputs },
            depth,
            package,
        ) matches OutcomeModel::Stopped(Stop::Pending(_)),
{
    law_replies_answer_requests(inputs, depth, package, count);
}

} // verus!
