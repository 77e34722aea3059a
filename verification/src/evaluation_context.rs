//! The call stack of an evaluation, and the block that receives instructions.

use crate::fir::{ExprId, FunctorApp, LocalItemId, LocalVarId, PackageId};
use crate::rir::BlockId;
use crate::value::{Value, ValueModel};
use std::collections::HashMap;
use vstd::prelude::*;

verus! {

/// Tells the calls of one evaluation apart, also those that follow each other.
pub type ScopeId = usize;

/// The state of one call: the callable that runs, and the values of its expressions and local
/// variables that are known so far.
#[derive(Debug)]
pub struct Scope {
    id: ScopeId,
    package_id: PackageId,
    callable: Option<(LocalItemId, FunctorApp)>,
    expr_values: HashMap<ExprId, Value>,
    local_vars: HashMap<LocalVarId, Value>,
}

/// What a scope is.
#[verifier::ext_equal]
pub struct ScopeModel {
    pub id: ScopeId,
    pub package_id: PackageId,
    pub callable: Option<(LocalItemId, FunctorApp)>,
    pub expr_values: Map<ExprId, ValueModel>,
    pub local_vars: Map<LocalVarId, ValueModel>,
}

/// What the values in a map are.
pub open spec fn value_map_model(values: Map<u32, Value>) -> Map<u32, ValueModel> {
    Map::new(|id: u32| values.contains_key(id), |id: u32| values[id]@)
}

impl View for Scope {
    type V = ScopeModel;

    closed spec fn view(&self) -> ScopeModel {
        ScopeModel {
            id: self.id,
            package_id: self.package_id,
            callable: self.callable,
            expr_values: value_map_model(self.expr_values@),
            local_vars: value_map_model(self.local_vars@),
        }
    }
}

impl ScopeModel {
    /// A scope in which nothing is known yet.
    pub open spec fn fresh(
        id: ScopeId,
        package_id: PackageId,
        callable: Option<(LocalItemId, FunctorApp)>,
    ) -> ScopeModel {
        ScopeModel {
            id,
            package_id,
            callable,
            expr_values: Map::empty(),
            local_vars: Map::empty(),
        }
    }

    pub open spec fn insert_expr_value(self, id: ExprId, value: ValueModel) -> ScopeModel {
        ScopeModel { expr_values: self.expr_values.insert(id, value), ..self }
    }

    pub open spec fn insert_local_var(self, id: LocalVarId, value: ValueModel) -> ScopeModel {
        ScopeModel { local_vars: self.local_vars.insert(id, value), ..self }
    }
}

impl Scope {
    /// A scope in which nothing is known yet.
    pub fn new(
        id: ScopeId,
        package_id: PackageId,
        callable: Option<(LocalItemId, FunctorApp)>,
    ) -> (scope: Self)
        ensures
            scope@ == ScopeModel::fresh(id, package_id, callable),
    {
        let scope = Scope {
            id,
            package_id,
            callable,
            expr_values: HashMap::new(),
            local_vars: HashMap::new(),
        };
        assert(scope@ =~= ScopeModel::fresh(id, package_id, callable));
        scope
    }

    pub fn id(&self) -> (id: ScopeId)
        ensures
            id == self@.id,
    {
        self.id
    }

    pub fn package_id(&self) -> (id: PackageId)
        ensures
            id == self@.package_id,
    {
        self.package_id
    }

    /// The callable and its functors; the entry scope has none.
    pub fn callable(&self) -> (callable: Option<(LocalItemId, FunctorApp)>)
        ensures
            callable == self@.callable,
    {
        self.callable
    }

    /// The value of an expression, if it is known.
    pub fn get_expr_value(&self, id: ExprId) -> (value: Option<&Value>)
        ensures
            match value {
                Some(v) => self@.expr_values.contains_key(id) && self@.expr_values[id] == v@,
                None => !self@.expr_values.contains_key(id),
            },
    {
        broadcast use vstd::std_specs::hash::group_hash_axioms;

        self.expr_values.get(&id)
    }

    /// The value of a local variable, if it is known.
    pub fn get_local_var_value(&self, id: LocalVarId) -> (value: Option<&Value>)
        ensures
            match value {
                Some(v) => self@.local_vars.contains_key(id) && self@.local_vars[id] == v@,
                None => !self@.local_vars.contains_key(id),
            },
    {
        broadcast use vstd::std_specs::hash::group_hash_axioms;

        self.local_vars.get(&id)
    }

    pub fn insert_expr_value(&mut self, id: ExprId, value: Value)
        ensures
            final(self)@ == old(self)@.insert_expr_value(id, value@),
    {
        broadcast use vstd::std_specs::hash::group_hash_axioms;

        self.expr_values.insert(id, value);
        assert(self@ =~= old(self)@.insert_expr_value(id, value@));
    }

    pub fn insert_local_var_value(&mut self, id: LocalVarId, value: Value)
        ensures
            final(self)@ == old(self)@.insert_local_var(id, value@),
    {
        broadcast use vstd::std_specs::hash::group_hash_axioms;

        self.local_vars.insert(id, value);
        assert(self@ =~= old(self)@.insert_local_var(id, value@));
    }
}

/// The call stack and the current block.
#[derive(Debug)]
pub struct EvaluationContext {
    current_block: BlockId,
    scopes: Vec<Scope>,
    next_scope: ScopeId,
}

/// What an evaluation context is.
#[verifier::ext_equal]
pub struct ContextModel {
    pub current_block: BlockId,
    pub scopes: Seq<ScopeModel>,
    /// The identifier of the next call.
    pub next_scope: ScopeId,
}

impl View for EvaluationContext {
    type V = ContextModel;

    closed spec fn view(&self) -> ContextModel {
        ContextModel {
            current_block: self.current_block,
            scopes: self.scopes@.map_values(|scope: Scope| scope@),
            next_scope: self.next_scope,
        }
    }
}

impl ContextModel {
    pub open spec fn current_scope(self) -> ScopeModel {
        self.scopes.last()
    }

    /// The context with another innermost scope.
    pub open spec fn with_current_scope(self, scope: ScopeModel) -> ContextModel {
        ContextModel { scopes: self.scopes.update(self.scopes.len() - 1, scope), ..self }
    }

    /// The context with a new call on top.
    pub open spec fn push_call(
        self,
        package: PackageId,
        callable: LocalItemId,
        functors: FunctorApp,
    ) -> ContextModel {
        ContextModel {
            scopes: self.scopes.push(
                ScopeModel::fresh(self.next_scope, package, Some((callable, functors))),
            ),
            next_scope: (self.next_scope + 1) as usize,
            ..self
        }
    }

    pub open spec fn pop_scope(self) -> ContextModel {
        ContextModel { scopes: self.scopes.drop_last(), ..self }
    }
}

impl EvaluationContext {
    /// The context of a program whose entry scope belongs to the given package.
    pub fn new(entry_package_id: PackageId, initial_block: BlockId) -> (context: Self)
        ensures
            context@ == (ContextModel {
                current_block: initial_block,
                scopes: seq![ScopeModel::fresh(0, entry_package_id, None)],
                next_scope: 1,
            }),
    {
        let mut scopes: Vec<Scope> = Vec::new();
        scopes.push(Scope::new(0, entry_package_id, None));
        let context = EvaluationContext { current_block: initial_block, scopes, next_scope: 1 };
        assert(context@.scopes =~= seq![ScopeModel::fresh(0, entry_package_id, None)]);
        context
    }

    /// The block that receives instructions.
    pub fn current_block(&self) -> (id: BlockId)
        ensures
            id == self@.current_block,
    {
        self.current_block
    }

    pub fn get_current_scope(&self) -> (scope: &Scope)
        requires
            self@.scopes.len() > 0,
        ensures
            scope@ == self@.current_scope(),
    {
        &self.scopes[self.scopes.len() - 1]
    }

    pub fn get_current_scope_mut(&mut self) -> (scope: &mut Scope)
        requires
            old(self)@.scopes.len() > 0,
        ensures
            scope@ == old(self)@.current_scope(),
            final(self)@ == old(self)@.with_current_scope(final(scope)@),
    {
        let last = self.scopes.len() - 1;
        let ghost before = self.scopes@;
        let ghost model = self@;
        let scope = &mut self.scopes[last];
        assert(before.update(last as int, *final(scope)).map_values(|s: Scope| s@)
            =~= model.scopes.update(last as int, final(scope)@));
        scope
    }

    /// Whether an identifier is left for another call.
    pub fn can_push_call(&self) -> (can: bool)
        ensures
            can == (self@.next_scope < usize::MAX),
    {
        self.next_scope < usize::MAX
    }

    /// Puts a new call on the call stack.
    pub fn push_call(&mut self, package: PackageId, callable: LocalItemId, functors: FunctorApp)
        requires
            old(self)@.next_scope < usize::MAX,
        ensures
            final(self)@ == old(self)@.push_call(package, callable, functors),
    {
        self.scopes.push(Scope::new(self.next_scope, package, Some((callable, functors))));
        self.next_scope = self.next_scope + 1;
        assert(self@ =~= old(self)@.push_call(package, callable, functors));
    }

    /// Takes the innermost scope off the call stack.
    pub fn pop_scope(&mut self) -> (scope: Scope)
        requires
            old(self)@.scopes.len() > 0,
        ensures
            scope@ == old(self)@.current_scope(),
            final(self)@ == old(self)@.pop_scope(),
    {
        let scope = self.scopes.pop().unwrap();
        assert(self@ =~= old(self)@.pop_scope());
        scope
    }
}

} // verus!
