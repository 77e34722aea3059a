//! The values of expressions.

use crate::fir::{FunctorApp, StoreItemId};
use vstd::prelude::*;

verus! {

/// A double-precision number, by its bit pattern.
#[derive(Copy, Clone, Debug, PartialEq, Eq, Structural)]
pub struct DoubleBits(pub u64);

#[derive(Copy, Clone, Debug, PartialEq, Eq, Structural)]
pub struct Qubit(pub usize);

/// The result of a measurement: one that the running program will read, or a known one.
#[derive(Copy, Clone, Debug, PartialEq, Eq)]
pub enum MeasurementResult {
    Id(usize),
    Val(bool),
}

/// A variable of the generated program.
#[derive(Copy, Clone, Debug, PartialEq, Eq, Structural)]
pub struct Var(pub usize);

/// Names a value that the classical evaluator holds and that instruction generation only passes
/// on: an array, a big integer, a closure, a Pauli operator, a range or a string.
#[derive(Copy, Clone, Debug, PartialEq, Eq, Structural)]
pub struct HeldValue(pub u64);

/// The value of an expression.
#[derive(Debug)]
pub enum Value {
    Bool(bool),
    Double(DoubleBits),
    Global(StoreItemId, FunctorApp),
    Held(HeldValue),
    Int(i64),
    Qubit(Qubit),
    Result(MeasurementResult),
    Tuple(Vec<Value>),
    Var(Var),
}

/// What a value is.
pub enum ValueModel {
    Bool(bool),
    Double(DoubleBits),
    Global(StoreItemId, FunctorApp),
    Held(HeldValue),
    Int(i64),
    Qubit(Qubit),
    Result(MeasurementResult),
    Tuple(Seq<ValueModel>),
    Var(Var),
}

impl ValueModel {
    /// Unit is the tuple without elements.
    pub open spec fn unit() -> ValueModel {
        ValueModel::Tuple(Seq::empty())
    }

    /// The value of an expression that a variable of the generated program holds.
    pub open spec fn variable(id: u32) -> ValueModel {
        ValueModel::Var(Var(id as usize))
    }
}

/// What the values in a sequence are.
pub open spec fn values_model(values: Seq<Value>) -> Seq<ValueModel> {
    values.map_values(|value: Value| value@)
}

impl View for Value {
    type V = ValueModel;

    open spec fn view(&self) -> ValueModel {
        self.model()
    }
}

impl Value {
    pub open spec fn model(self) -> ValueModel
        decreases self,
    {
        match self {
            Value::Bool(b) => ValueModel::Bool(b),
            Value::Double(d) => ValueModel::Double(d),
            Value::Global(id, functors) => ValueModel::Global(id, functors),
            Value::Held(held) => ValueModel::Held(held),
            Value::Int(i) => ValueModel::Int(i),
            Value::Qubit(q) => ValueModel::Qubit(q),
            Value::Result(r) => ValueModel::Result(r),
            Value::Tuple(elements) => ValueModel::Tuple(
                Seq::new(
                    elements@.len(),
                    |i: int|
                        if 0 <= i < elements@.len() {
                            elements@[i].model()
                        } else {
                            arbitrary()
                        },
                ),
            ),
            Value::Var(v) => ValueModel::Var(v),
        }
    }
}

impl Value {
    /// The unit value.
    pub fn unit() -> (value: Value)
        ensures
            value@ == ValueModel::unit(),
    {
        let value = Value::Tuple(Vec::new());
        assert(value@->Tuple_0 =~= Seq::<ValueModel>::empty());
        value
    }

    /// The value of an expression that a variable of the generated program holds.
    pub fn variable(id: u32) -> (value: Value)
        ensures
            value@ == ValueModel::variable(id),
    {
        Value::Var(Var(id as usize))
    }

    /// A second value that is the same.
    pub fn duplicate(&self) -> (value: Value)
        ensures
            value@ == self@,
        decreases self,
    {
        match self {
            Value::Bool(b) => Value::Bool(*b),
            Value::Double(d) => Value::Double(*d),
            Value::Global(id, functors) => Value::Global(*id, *functors),
            Value::Held(held) => Value::Held(*held),
            Value::Int(i) => Value::Int(*i),
            Value::Qubit(q) => Value::Qubit(*q),
            Value::Result(r) => Value::Result(*r),
            Value::Tuple(elements) => {
                let copies = Value::duplicate_all(elements);
                let value = Value::Tuple(copies);
                proof {
                    lemma_tuple_model(*elements);
                    lemma_tuple_model(copies);
                }
                value
            },
            Value::Var(v) => Value::Var(*v),
        }
    }

    /// A second list of the same values.
    pub fn duplicate_all(values: &Vec<Value>) -> (copies: Vec<Value>)
        ensures
            values_model(copies@) == values_model(values@),
        decreases values,
    {
        let mut copies: Vec<Value> = Vec::new();
        let mut i: usize = 0;
        while i < values.len()
            invariant
                i <= values@.len(),
                copies@.len() == i,
                forall|j: int| 0 <= j < i ==> (#[trigger] copies@[j])@ == values@[j]@,
            decreases values@.len() - i,
        {
            let copy = values[i].duplicate();
            copies.push(copy);
            i += 1;
        }
        assert(values_model(copies@) =~= values_model(values@));
        copies
    }
}

/// A tuple is the sequence of its elements.
pub proof fn lemma_tuple_model(elements: Vec<Value>)
    ensures
        Value::Tuple(elements)@ == ValueModel::Tuple(values_model(elements@)),
{
    assert(Value::Tuple(elements)@->Tuple_0 =~= values_model(elements@));
}

} // verus!
