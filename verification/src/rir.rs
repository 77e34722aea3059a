//! The program representation that is generated: callables and blocks of instructions.

use crate::index_map::IndexMap;
use crate::value::DoubleBits;
use vstd::prelude::*;

verus! {

pub type BlockId = u32;

pub type CallableId = u32;

pub type VariableId = u32;

/// The types of operands and variables.
#[derive(Copy, Clone, Debug, PartialEq, Eq)]
pub enum Ty {
    Qubit,
    Result,
    Boolean,
    Integer,
    Double,
}

#[derive(Copy, Clone, Debug, PartialEq, Eq)]
pub struct Variable {
    pub variable_id: VariableId,
    pub ty: Ty,
}

#[derive(Copy, Clone, Debug, PartialEq, Eq)]
pub enum Literal {
    Qubit(u32),
    Result(u32),
    Bool(bool),
    Integer(i64),
    Double(DoubleBits),
}

#[derive(Copy, Clone, Debug, PartialEq, Eq)]
pub enum Operand {
    Literal(Literal),
    Variable(Variable),
}

#[derive(Copy, Clone, Debug, PartialEq, Eq)]
pub enum ConditionCode {
    Eq,
    Ne,
}

/// The instructions that partial evaluation generates.
#[derive(Debug, PartialEq, Eq)]
pub enum Instruction {
    /// A call, with the variable that receives its result.
    Call(CallableId, Vec<Operand>, Option<Variable>),
    /// A comparison, with the variable that receives its result.
    Icmp(ConditionCode, Operand, Operand, Variable),
    Return,
}

/// What an instruction is.
pub enum InstructionModel {
    Call(CallableId, Seq<Operand>, Option<Variable>),
    Icmp(ConditionCode, Operand, Operand, Variable),
    Return,
}

impl View for Instruction {
    type V = InstructionModel;

    open spec fn view(&self) -> InstructionModel {
        match *self {
            Instruction::Call(id, args, output) => InstructionModel::Call(id, args@, output),
            Instruction::Icmp(code, lhs, rhs, output) => InstructionModel::Icmp(
                code,
                lhs,
                rhs,
                output,
            ),
            Instruction::Return => InstructionModel::Return,
        }
    }
}

/// A block of instructions.
#[derive(Debug, PartialEq, Eq)]
pub struct Block(pub Vec<Instruction>);

impl View for Block {
    type V = Seq<InstructionModel>;

    open spec fn view(&self) -> Seq<InstructionModel> {
        self.0@.map_values(|instruction: Instruction| instruction@)
    }
}

#[derive(Copy, Clone, Debug, PartialEq, Eq)]
pub enum CallableType {
    Measurement,
    Reset,
    Readout,
    OutputRecording,
    Regular,
}

#[derive(Debug, PartialEq, Eq)]
pub struct Callable {
    pub name: String,
    pub input_type: Vec<Ty>,
    pub output_type: Option<Ty>,
    pub body: Option<BlockId>,
    pub call_type: CallableType,
}

/// What a callable is.
#[verifier::ext_equal]
pub struct CallableModel {
    pub name: Seq<char>,
    pub input_type: Seq<Ty>,
    pub output_type: Option<Ty>,
    pub body: Option<BlockId>,
    pub call_type: CallableType,
}

impl View for Callable {
    type V = CallableModel;

    open spec fn view(&self) -> CallableModel {
        CallableModel {
            name: self.name@,
            input_type: self.input_type@,
            output_type: self.output_type,
            body: self.body,
            call_type: self.call_type,
        }
    }
}

#[derive(Debug)]
pub struct Program {
    pub entry: CallableId,
    pub callables: IndexMap<Callable>,
    pub blocks: IndexMap<Block>,
}

/// What a program is.
#[verifier::ext_equal]
pub struct ProgramModel {
    pub entry: CallableId,
    pub callables: Map<CallableId, CallableModel>,
    pub blocks: Map<BlockId, Seq<InstructionModel>>,
}

impl View for Program {
    type V = ProgramModel;

    open spec fn view(&self) -> ProgramModel {
        ProgramModel {
            entry: self.entry,
            callables: Map::new(
                |id: CallableId| self.callables@.contains_key(id as int),
                |id: CallableId| self.callables@[id as int]@,
            ),
            blocks: Map::new(
                |id: BlockId| self.blocks@.contains_key(id as int),
                |id: BlockId| self.blocks@[id as int]@,
            ),
        }
    }
}

impl ProgramModel {
    /// The program with one more instruction at the end of a block.
    pub open spec fn push_instruction(
        self,
        block: BlockId,
        instruction: InstructionModel,
    ) -> ProgramModel {
        ProgramModel {
            blocks: self.blocks.insert(block, self.blocks[block].push(instruction)),
            ..self
        }
    }
}

impl Program {
    /// The program without callables and blocks.
    pub fn new() -> (program: Self)
        ensures
            program@.entry == 0,
            program@.callables == Map::<CallableId, CallableModel>::empty(),
            program@.blocks == Map::<BlockId, Seq<InstructionModel>>::empty(),
    {
        let program = Program {
            entry: 0,
            callables: IndexMap::new(),
            blocks: IndexMap::new(),
        };
        assert(program@.callables =~= Map::<CallableId, CallableModel>::empty());
        assert(program@.blocks =~= Map::<BlockId, Seq<InstructionModel>>::empty());
        program
    }

    pub fn insert_callable(&mut self, id: CallableId, callable: Callable)
        requires
            id < u32::MAX,
        ensures
            final(self)@ == (ProgramModel {
                callables: old(self)@.callables.insert(id, callable@),
                ..old(self)@
            }),
    {
        self.callables.insert(id as usize, callable);
        assert(self@.callables =~= old(self)@.callables.insert(id, callable@));
    }

    pub fn insert_block(&mut self, id: BlockId, block: Block)
        requires
            id < u32::MAX,
        ensures
            final(self)@ == (ProgramModel {
                blocks: old(self)@.blocks.insert(id, block@),
                ..old(self)@
            }),
    {
        self.blocks.insert(id as usize, block);
        assert(self@.blocks =~= old(self)@.blocks.insert(id, block@));
    }

    /// Adds an instruction at the end of a block.
    pub fn push_instruction(&mut self, block: BlockId, instruction: Instruction)
        requires
            old(self)@.blocks.contains_key(block),
        ensures
            final(self)@ == old(self)@.push_instruction(block, instruction@),
    {
        let target = self.blocks.get_mut(block as usize);
        target.0.push(instruction);
        assert(self.blocks@[block as int]@ =~= old(self)@.blocks[block].push(instruction@));
        assert(self@.blocks =~= old(self)@.push_instruction(block, instruction@).blocks);
    }
}

} // verus!
