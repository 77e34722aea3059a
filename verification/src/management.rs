//! Hands out the identifiers of generated blocks, callables, variables, results and qubits.

use crate::rir::{BlockId, CallableId, VariableId};
use crate::value::{MeasurementResult, Qubit};
use vstd::prelude::*;

verus! {

/// The identifiers that are in use, and the next one of each kind.
#[derive(Debug)]
pub struct ResourceManager {
    qubits_in_use: Vec<bool>,
    next_block: BlockId,
    next_callable: CallableId,
    next_result: usize,
    next_var: VariableId,
}

/// What a resource manager holds. The flags tell, for each qubit allocated so far, whether it is
/// in use now.
#[verifier::ext_equal]
pub struct ResourcesModel {
    pub qubits_in_use: Seq<bool>,
    pub next_block: BlockId,
    pub next_callable: CallableId,
    pub next_result: usize,
    pub next_var: VariableId,
}

/// The first index from `i` on whose flag is down, or the length.
pub open spec fn first_free_from(flags: Seq<bool>, i: int) -> int
    decreases flags.len() - i,
{
    if i < flags.len() && flags[i] {
        first_free_from(flags, i + 1)
    } else {
        i
    }
}

impl ResourcesModel {
    pub open spec fn empty() -> ResourcesModel {
        ResourcesModel {
            qubits_in_use: Seq::empty(),
            next_block: 0,
            next_callable: 0,
            next_result: 0,
            next_var: 0,
        }
    }

    pub open spec fn in_use(self, qubit: int) -> bool {
        0 <= qubit < self.qubits_in_use.len() && self.qubits_in_use[qubit]
    }

    /// The qubit that is allocated next: the first one not in use.
    pub open spec fn free_qubit(self) -> int {
        first_free_from(self.qubits_in_use, 0)
    }

    pub open spec fn allocate_qubit(self) -> ResourcesModel {
        let qubit = self.free_qubit();
        ResourcesModel {
            qubits_in_use: if qubit < self.qubits_in_use.len() {
                self.qubits_in_use.update(qubit, true)
            } else {
                self.qubits_in_use.push(true)
            },
            ..self
        }
    }

    pub open spec fn release_qubit(self, qubit: int) -> ResourcesModel {
        ResourcesModel { qubits_in_use: self.qubits_in_use.update(qubit, false), ..self }
    }
}

/// The first free index lies at or behind the start, is free, and has only raised flags before
/// it.
pub proof fn lemma_first_free(flags: Seq<bool>, i: int)
    requires
        0 <= i <= flags.len(),
    ensures
        i <= first_free_from(flags, i) <= flags.len(),
        first_free_from(flags, i) < flags.len() ==> !flags[first_free_from(flags, i)],
        forall|j: int| i <= j < first_free_from(flags, i) ==> flags[j],
    decreases flags.len() - i,
{
    if i < flags.len() && flags[i] {
        lemma_first_free(flags, i + 1);
    }
}

impl View for ResourceManager {
    type V = ResourcesModel;

    closed spec fn view(&self) -> ResourcesModel {
        ResourcesModel {
            qubits_in_use: self.qubits_in_use@,
            next_block: self.next_block,
            next_callable: self.next_callable,
            next_result: self.next_result,
            next_var: self.next_var,
        }
    }
}

impl ResourceManager {
    /// A manager that has handed out nothing.
    pub fn new() -> (manager: Self)
        ensures
            manager@ == ResourcesModel::empty(),
    {
        ResourceManager {
            qubits_in_use: Vec::new(),
            next_block: 0,
            next_callable: 0,
            next_result: 0,
            next_var: 0,
        }
    }

    /// Takes the first qubit that is not in use.
    pub fn allocate_qubit(&mut self) -> (qubit: Qubit)
        ensures
            qubit.0 == old(self)@.free_qubit(),
            final(self)@ == old(self)@.allocate_qubit(),
    {
        let mut i: usize = 0;
        while i < self.qubits_in_use.len() && self.qubits_in_use[i]
            invariant
                *self == *old(self),
                i <= self.qubits_in_use@.len(),
                first_free_from(self.qubits_in_use@, 0) == first_free_from(
                    self.qubits_in_use@,
                    i as int,
                ),
            decreases self.qubits_in_use@.len() - i,
        {
            i += 1;
        }
        if i < self.qubits_in_use.len() {
            self.qubits_in_use.set(i, true);
        } else {
            self.qubits_in_use.push(true);
        }
        Qubit(i)
    }

    /// Whether a qubit has ever been allocated.
    pub fn knows_qubit(&self, qubit: Qubit) -> (known: bool)
        ensures
            known == (qubit.0 < self@.qubits_in_use.len()),
    {
        qubit.0 < self.qubits_in_use.len()
    }

    /// Gives a qubit back for later allocations.
    pub fn release_qubit(&mut self, qubit: Qubit)
        requires
            qubit.0 < old(self)@.qubits_in_use.len(),
        ensures
            final(self)@ == old(self)@.release_qubit(qubit.0 as int),
    {
        self.qubits_in_use.set(qubit.0, false);
    }

    /// The identifier of a new block, unless none is left.
    pub fn next_block(&mut self) -> (id: Option<BlockId>)
        ensures
            old(self)@.next_block < u32::MAX ==> {
                &&& id == Some(old(self)@.next_block)
                &&& final(self)@ == (ResourcesModel {
                    next_block: (old(self)@.next_block + 1) as u32,
                    ..old(self)@
                })
            },
            old(self)@.next_block == u32::MAX ==> id is None && final(self)@ == old(self)@,
    {
        if self.next_block == u32::MAX {
            return None;
        }
        let id = self.next_block;
        self.next_block = id + 1;
        Some(id)
    }

    /// The identifier of a new callable, unless none is left.
    pub fn next_callable(&mut self) -> (id: Option<CallableId>)
        ensures
            old(self)@.next_callable < u32::MAX ==> {
                &&& id == Some(old(self)@.next_callable)
                &&& final(self)@ == (ResourcesModel {
                    next_callable: (old(self)@.next_callable + 1) as u32,
                    ..old(self)@
                })
            },
            old(self)@.next_callable == u32::MAX ==> id is None && final(self)@ == old(self)@,
    {
        if self.next_callable == u32::MAX {
            return None;
        }
        let id = self.next_callable;
        self.next_callable = id + 1;
        Some(id)
    }

    /// A new measurement result, unless no identifier is left.
    pub fn next_result(&mut self) -> (result: Option<MeasurementResult>)
        ensures
            old(self)@.next_result < usize::MAX ==> {
                &&& result == Some(MeasurementResult::Id(old(self)@.next_result))
                &&& final(self)@ == (ResourcesModel {
                    next_result: (old(self)@.next_result + 1) as usize,
                    ..old(self)@
                })
            },
            old(self)@.next_result == usize::MAX ==> result is None && final(self)@ == old(self)@,
    {
        if self.next_result == usize::MAX {
            return None;
        }
        let id = self.next_result;
        self.next_result = id + 1;
        Some(MeasurementResult::Id(id))
    }

    /// The identifier of a new variable, unless none is left.
    pub fn next_var(&mut self) -> (id: Option<VariableId>)
        ensures
            old(self)@.next_var < u32::MAX ==> {
                &&& id == Some(old(self)@.next_var)
                &&& final(self)@ == (ResourcesModel {
                    next_var: (old(self)@.next_var + 1) as u32,
                    ..old(self)@
                })
            },
            old(self)@.next_var == u32::MAX ==> id is None && final(self)@ == old(self)@,
    {
        if self.next_var == u32::MAX {
            return None;
        }
        let id = self.next_var;
        self.next_var = id + 1;
        Some(id)
    }
}

} // verus!
