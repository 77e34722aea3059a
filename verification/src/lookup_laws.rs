//! What is found in a package store and in the compute properties, entry by entry.

use crate::fir::{
    Block, BlockId, Expr, ExprId, FunctorApp, Global, Package, PackageId, PackageStore, Pat, PatId,
    Stmt, StmtId, StoreItemId, Ty,
};
use crate::rca::{ComputeKind, PackageStoreComputeProperties};
use vstd::prelude::*;

verus! {

/// A package is found exactly under its own identifier.
pub proof fn law_package_is_found(store: PackageStore, id: PackageId, package: Package)
    ensures
        store.package(id) == Some(package) <==> store.packages@.contains_pair(id as int, package),
        store.package(id) is None <==> !store.packages@.contains_key(id as int),
{
}

/// A block is found exactly if the named package holds it under that identifier.
pub proof fn law_block_is_found(store: PackageStore, package: PackageId, id: BlockId, block: Block)
    ensures
        store.block(package, id) == Some(block) <==> store.packages@.contains_key(package as int)
            && store.packages@[package as int].blocks@.contains_pair(id as int, block),
        store.block(package, id) is None <==> !(store.packages@.contains_key(package as int)
            && store.packages@[package as int].blocks@.contains_key(id as int)),
{
}

/// An expression is found exactly if the named package holds it under that identifier.
pub proof fn law_expr_is_found(store: PackageStore, package: PackageId, id: ExprId, expr: Expr)
    ensures
        store.expr(package, id) == Some(expr) <==> store.packages@.contains_key(package as int)
            && store.packages@[package as int].exprs@.contains_pair(id as int, expr),
        store.expr(package, id) is None <==> !(store.packages@.contains_key(package as int)
            && store.packages@[package as int].exprs@.contains_key(id as int)),
{
}

/// A pattern is found exactly if the named package holds it under that identifier.
pub proof fn law_pat_is_found(store: PackageStore, package: PackageId, id: PatId, pat: Pat)
    ensures
        store.pat(package, id) == Some(pat) <==> store.packages@.contains_key(package as int)
            && store.packages@[package as int].pats@.contains_pair(id as int, pat),
        store.pat(package, id) is None <==> !(store.packages@.contains_key(package as int)
            && store.packages@[package as int].pats@.contains_key(id as int)),
{
}

/// A statement is found exactly if the named package holds it under that identifier.
pub proof fn law_stmt_is_found(store: PackageStore, package: PackageId, id: StmtId, stmt: Stmt)
    ensures
        store.stmt(package, id) == Some(stmt) <==> store.packages@.contains_key(package as int)
            && store.packages@[package as int].stmts@.contains_pair(id as int, stmt),
        store.stmt(package, id) is None <==> !(store.packages@.contains_key(package as int)
            && store.packages@[package as int].stmts@.contains_key(id as int)),
{
}

/// A global item is found exactly if its package holds it under its number.
pub proof fn law_global_is_found(store: PackageStore, id: StoreItemId, global: Global)
    ensures
        store.global(id) == Some(global) <==> store.packages@.contains_key(id.package as int)
            && store.packages@[id.package as int].items@.contains_pair(id.item as int, global),
        store.global(id) is None <==> !(store.packages@.contains_key(id.package as int)
            && store.packages@[id.package as int].items@.contains_key(id.item as int)),
{
}

/// The analysis answers for an expression exactly what it holds of it in the named package.
pub proof fn law_expr_kind_is_found(
    properties: PackageStoreComputeProperties,
    package: PackageId,
    id: ExprId,
    kind: ComputeKind,
)
    ensures
        properties.expr(package, id) == Some(kind) <==> properties.packages@.contains_key(
            package as int,
        ) && properties.packages@[package as int].exprs@.contains_pair(id as int, kind),
        properties.expr(package, id) is None <==> !(properties.packages@.contains_key(
            package as int,
        ) && properties.packages@[package as int].exprs@.contains_key(id as int)),
{
}

/// The analysis answers for a statement exactly what it holds of it in the named package.
pub proof fn law_stmt_kind_is_found(
    properties: PackageStoreComputeProperties,
    package: PackageId,
    id: StmtId,
    kind: ComputeKind,
)
    ensures
        properties.stmt(package, id) == Some(kind) <==> properties.packages@.contains_key(
            package as int,
        ) && properties.packages@[package as int].stmts@.contains_pair(id as int, kind),
        properties.stmt(package, id) is None <==> !(properties.packages@.contains_key(
            package as int,
        ) && properties.packages@[package as int].stmts@.contains_key(id as int)),
{
}

/// Unit is the tuple type without elements, and no other type.
pub proof fn law_unit_type(ty: Ty)
    ensures
        ty.spec_is_unit() <==> (ty is Tuple && ty->Tuple_0@.len() == 0),
{
}

/// Without functors a callable is neither adjoint nor controlled.
pub proof fn law_no_functors()
    ensures
        !FunctorApp::none().adjoint,
        FunctorApp::none().controlled == 0,
{
}

} // verus!
