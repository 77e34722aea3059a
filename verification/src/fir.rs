//! The program representation that is evaluated: packages of expressions, statements, blocks,
//! patterns and global items, each found by its identifier.

use crate::index_map::IndexMap;
use vstd::prelude::*;

verus! {

pub type PackageId = usize;

pub type LocalItemId = usize;

pub type LocalVarId = u32;

pub type BlockId = u32;

pub type ExprId = u32;

pub type PatId = u32;

pub type StmtId = u32;

/// Names an execution graph that the classical evaluator holds.
pub type ExecGraphId = usize;

/// A range of source text.
#[derive(Copy, Clone, Debug, PartialEq, Eq, Structural)]
pub struct Span {
    pub lo: u32,
    pub hi: u32,
}

/// The functors applied to a callable.
#[derive(Copy, Clone, Debug, PartialEq, Eq, Structural)]
pub struct FunctorApp {
    pub adjoint: bool,
    pub controlled: u8,
}

impl FunctorApp {
    /// No functor applied.
    pub open spec fn none() -> FunctorApp {
        FunctorApp { adjoint: false, controlled: 0 }
    }
}

/// A global item, by the package that holds it.
#[derive(Copy, Clone, Debug, PartialEq, Eq, Structural)]
pub struct StoreItemId {
    pub package: PackageId,
    pub item: LocalItemId,
}

/// A global item as written in a package; without a package it belongs to the package that
/// mentions it.
#[derive(Copy, Clone, Debug, PartialEq, Eq, Structural)]
pub struct ItemId {
    pub package: Option<PackageId>,
    pub item: LocalItemId,
}

/// What a name resolves to.
#[derive(Copy, Clone, Debug, PartialEq, Eq)]
pub enum Res {
    Unresolved,
    Item(ItemId),
    Local(LocalVarId),
}

/// The primitive types.
#[derive(Copy, Clone, Debug, PartialEq, Eq)]
pub enum Prim {
    BigInt,
    Bool,
    Double,
    Int,
    Pauli,
    Qubit,
    Range,
    RangeFrom,
    RangeFull,
    RangeTo,
    Result,
    String,
}

/// The types of expressions. `Other` stands for the types that are neither primitive nor
/// tuples.
#[derive(Debug)]
pub enum Ty {
    Prim(Prim),
    Tuple(Vec<Ty>),
    Other,
}

impl Ty {
    /// The unit type is the tuple without elements.
    pub open spec fn spec_is_unit(self) -> bool {
        self matches Ty::Tuple(elements) && elements@.len() == 0
    }

    pub fn is_unit(&self) -> (unit: bool)
        ensures
            unit == self.spec_is_unit(),
    {
        match self {
            Ty::Tuple(elements) => elements.len() == 0,
            _ => false,
        }
    }
}

/// An identifier at a place in the source.
#[derive(Debug)]
pub struct Ident {
    pub id: LocalVarId,
    pub span: Span,
    pub name: String,
}

/// The binary operators.
#[derive(Copy, Clone, Debug, PartialEq, Eq)]
pub enum BinOp {
    Add,
    AndB,
    AndL,
    Div,
    Eq,
    Exp,
    Gt,
    Gte,
    Lt,
    Lte,
    Mod,
    Mul,
    Neq,
    OrB,
    OrL,
    Shl,
    Shr,
    Sub,
    XorB,
}

/// The kinds of expressions, with the operands that instruction generation reads.
#[derive(Debug)]
pub enum ExprKind {
    Array,
    ArrayLit,
    ArrayRepeat,
    Assign,
    AssignField,
    AssignIndex,
    AssignOp,
    BinOp(BinOp, ExprId, ExprId),
    Block,
    /// The callee and its argument.
    Call(ExprId, ExprId),
    Closure,
    Fail,
    Field,
    Hole,
    If,
    Index,
    Lit,
    Range,
    Return,
    String,
    Tuple(Vec<ExprId>),
    UnOp,
    UpdateField,
    UpdateIndex,
    Var(Res),
    While,
}

/// A section of an execution graph.
#[derive(Copy, Clone, Debug, PartialEq, Eq, Structural)]
pub struct ExecGraphRange {
    pub start: usize,
    pub end: usize,
}

#[derive(Debug)]
pub struct Expr {
    pub span: Span,
    pub ty: Ty,
    pub kind: ExprKind,
    pub exec_graph_range: ExecGraphRange,
}

#[derive(Copy, Clone, Debug, PartialEq, Eq)]
pub enum StmtKind {
    Expr(ExprId),
    Item(LocalItemId),
    Local(PatId, ExprId),
    Semi(ExprId),
}

#[derive(Debug)]
pub struct Stmt {
    pub kind: StmtKind,
    pub exec_graph_range: ExecGraphRange,
}

#[derive(Debug)]
pub struct Block {
    pub stmts: Vec<StmtId>,
}

#[derive(Debug)]
pub enum PatKind {
    Bind(Ident),
    Discard,
    Tuple(Vec<PatId>),
}

#[derive(Debug)]
pub struct Pat {
    pub kind: PatKind,
}

/// One specialization of a callable.
#[derive(Copy, Clone, Debug, PartialEq, Eq, Structural)]
pub struct SpecDecl {
    pub block: BlockId,
    pub exec_graph: ExecGraphId,
}

/// The specializations of a callable that has an implementation.
#[derive(Copy, Clone, Debug)]
pub struct Specializations {
    pub body: SpecDecl,
    pub adj: Option<SpecDecl>,
    pub ctl: Option<SpecDecl>,
    pub ctl_adj: Option<SpecDecl>,
}

#[derive(Copy, Clone, Debug)]
pub enum CallableImpl {
    Intrinsic,
    Spec(Specializations),
}

#[derive(Debug)]
pub struct CallableDecl {
    pub name: Ident,
    /// The types of the parameters, in order, as derived from the input pattern.
    pub input_params: Vec<Ty>,
    pub output: Ty,
    pub implementation: CallableImpl,
}

#[derive(Debug)]
pub enum Global {
    Callable(CallableDecl),
    Udt,
}

#[derive(Debug)]
pub struct Package {
    pub entry: Option<ExprId>,
    pub entry_exec_graph: ExecGraphId,
    pub items: IndexMap<Global>,
    pub blocks: IndexMap<Block>,
    pub exprs: IndexMap<Expr>,
    pub pats: IndexMap<Pat>,
    pub stmts: IndexMap<Stmt>,
}

#[derive(Debug)]
pub struct PackageStore {
    pub packages: IndexMap<Package>,
}

impl PackageStore {
    pub open spec fn package(self, id: PackageId) -> Option<Package> {
        self.packages@.get(id as int)
    }

    pub open spec fn block(self, package: PackageId, id: BlockId) -> Option<Block> {
        match self.package(package) {
            Some(p) => p.blocks@.get(id as int),
            None => None,
        }
    }

    pub open spec fn expr(self, package: PackageId, id: ExprId) -> Option<Expr> {
        match self.package(package) {
            Some(p) => p.exprs@.get(id as int),
            None => None,
        }
    }

    pub open spec fn pat(self, package: PackageId, id: PatId) -> Option<Pat> {
        match self.package(package) {
            Some(p) => p.pats@.get(id as int),
            None => None,
        }
    }

    pub open spec fn stmt(self, package: PackageId, id: StmtId) -> Option<Stmt> {
        match self.package(package) {
            Some(p) => p.stmts@.get(id as int),
            None => None,
        }
    }

    pub open spec fn global(self, id: StoreItemId) -> Option<Global> {
        match self.package(id.package) {
            Some(p) => p.items@.get(id.item as int),
            None => None,
        }
    }

    pub fn get(&self, id: PackageId) -> (package: Option<&Package>)
        ensures
            match package {
                Some(p) => self.package(id) == Some(*p),
                None => self.package(id) is None,
            },
    {
        self.packages.get(id)
    }

    pub fn get_block(&self, package: PackageId, id: BlockId) -> (block: Option<&Block>)
        ensures
            match block {
                Some(b) => self.block(package, id) == Some(*b),
                None => self.block(package, id) is None,
            },
    {
        match self.packages.get(package) {
            Some(p) => p.blocks.get(id as usize),
            None => None,
        }
    }

    pub fn get_expr(&self, package: PackageId, id: ExprId) -> (expr: Option<&Expr>)
        ensures
            match expr {
                Some(e) => self.expr(package, id) == Some(*e),
                None => self.expr(package, id) is None,
            },
    {
        match self.packages.get(package) {
            Some(p) => p.exprs.get(id as usize),
            None => None,
        }
    }

    pub fn get_pat(&self, package: PackageId, id: PatId) -> (pat: Option<&Pat>)
        ensures
            match pat {
                Some(p) => self.pat(package, id) == Some(*p),
                None => self.pat(package, id) is None,
            },
    {
        match self.packages.get(package) {
            Some(p) => p.pats.get(id as usize),
            None => None,
        }
    }

    pub fn get_stmt(&self, package: PackageId, id: StmtId) -> (stmt: Option<&Stmt>)
        ensures
            match stmt {
                Some(s) => self.stmt(package, id) == Some(*s),
                None => self.stmt(package, id) is None,
            },
    {
        match self.packages.get(package) {
            Some(p) => p.stmts.get(id as usize),
            None => None,
        }
    }

    pub fn get_global(&self, id: StoreItemId) -> (global: Option<&Global>)
        ensures
            match global {
                Some(g) => self.global(id) == Some(*g),
                None => self.global(id) is None,
            },
    {
        match self.packages.get(id.package) {
            Some(p) => p.items.get(id.item),
            None => None,
        }
    }
}

} // verus!
