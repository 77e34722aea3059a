//! What runtime-capabilities analysis says of expressions and statements.

use crate::fir::{ExprId, PackageId, StmtId};
use crate::index_map::IndexMap;
use vstd::prelude::*;

verus! {

/// Whether something can be computed before the program runs.
#[derive(Copy, Clone, Debug, PartialEq, Eq)]
pub enum ComputeKind {
    Classical,
    Quantum,
}

/// The compute kinds of one package's expressions and statements. Scopes carry no runtime
/// properties of arguments, so each has a single kind.
#[derive(Debug)]
pub struct PackageComputeProperties {
    pub exprs: IndexMap<ComputeKind>,
    pub stmts: IndexMap<ComputeKind>,
}

#[derive(Debug)]
pub struct PackageStoreComputeProperties {
    pub packages: IndexMap<PackageComputeProperties>,
}

impl PackageStoreComputeProperties {
    pub open spec fn expr(self, package: PackageId, id: ExprId) -> Option<ComputeKind> {
        match self.packages@.get(package as int) {
            Some(p) => p.exprs@.get(id as int),
            None => None,
        }
    }

    pub open spec fn stmt(self, package: PackageId, id: StmtId) -> Option<ComputeKind> {
        match self.packages@.get(package as int) {
            Some(p) => p.stmts@.get(id as int),
            None => None,
        }
    }

    pub fn get_expr(&self, package: PackageId, id: ExprId) -> (kind: Option<ComputeKind>)
        ensures
            kind == self.expr(package, id),
    {
        match self.packages.get(package) {
            Some(p) => match p.exprs.get(id as usize) {
                Some(kind) => Some(*kind),
                None => None,
            },
            None => None,
        }
    }

    pub fn get_stmt(&self, package: PackageId, id: StmtId) -> (kind: Option<ComputeKind>)
        ensures
            kind == self.stmt(package, id),
    {
        match self.packages.get(package) {
            Some(p) => match p.stmts.get(id as usize) {
                Some(kind) => Some(*kind),
                None => None,
            },
            None => None,
        }
    }
}

} // verus!
