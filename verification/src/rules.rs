//! Cost rules: pure policy data mapping each instruction to a non-negative
//! cost, plus a per-local-variable cost charged for each call. The injector
//! consumes the rules; it does not own them. A lookup may fail (`None`),
//! which aborts injection.

use vstd::prelude::*;
use crate::module::Instruction;

verus! {

/// A cost table keyed by instruction family. A `None` entry models a
/// malformed table: looking up such an instruction fails.
#[derive(Clone, Copy, Debug)]
pub struct CostRules {
    /// `I32Const`, `I64Const`.
    pub const_cost: Option<u32>,
    /// Numeric operations and conversions.
    pub arith_cost: Option<u32>,
    /// `GetLocal`, `SetLocal`, `TeeLocal`.
    pub local_cost: Option<u32>,
    /// `GetGlobal`, `SetGlobal`.
    pub global_cost: Option<u32>,
    /// Structured control flow, branches, `Nop`, `Unreachable`.
    pub control_cost: Option<u32>,
    /// `Call`.
    pub call_cost: Option<u32>,
    /// Charged once per local variable of a called function.
    pub call_per_local: u32,
}

impl CostRules {
    /// Cost of one instruction; depends on the instruction family alone.
    pub open spec fn spec_instruction_cost(self, i: Instruction) -> Option<u32> {
        match i {
            Instruction::I32Const(_) => self.const_cost,
            Instruction::I64Const(_) => self.const_cost,
            Instruction::I64ExtendUI32 => self.arith_cost,
            Instruction::I64Add => self.arith_cost,
            Instruction::I64Sub => self.arith_cost,
            Instruction::I64LtU => self.arith_cost,
            Instruction::I32Add => self.arith_cost,
            Instruction::I32Sub => self.arith_cost,
            Instruction::GetLocal(_) => self.local_cost,
            Instruction::SetLocal(_) => self.local_cost,
            Instruction::TeeLocal(_) => self.local_cost,
            Instruction::GetGlobal(_) => self.global_cost,
            Instruction::SetGlobal(_) => self.global_cost,
            Instruction::Call(_) => self.call_cost,
            Instruction::Unreachable => self.control_cost,
            Instruction::Nop => self.control_cost,
            Instruction::Block => self.control_cost,
            Instruction::Loop => self.control_cost,
            Instruction::If => self.control_cost,
            Instruction::Else => self.control_cost,
            Instruction::End => self.control_cost,
            Instruction::Br(_) => self.control_cost,
            Instruction::BrIf(_) => self.control_cost,
            Instruction::Return => self.control_cost,
        }
    }

    /// Look up the cost of one instruction.
    pub fn instruction_cost(&self, i: &Instruction) -> (r: Option<u32>)
        ensures
            r == self.spec_instruction_cost(*i),
    {
        match *i {
            Instruction::I32Const(_) => self.const_cost,
            Instruction::I64Const(_) => self.const_cost,
            Instruction::I64ExtendUI32 => self.arith_cost,
            Instruction::I64Add => self.arith_cost,
            Instruction::I64Sub => self.arith_cost,
            Instruction::I64LtU => self.arith_cost,
            Instruction::I32Add => self.arith_cost,
            Instruction::I32Sub => self.arith_cost,
            Instruction::GetLocal(_) => self.local_cost,
            Instruction::SetLocal(_) => self.local_cost,
            Instruction::TeeLocal(_) => self.local_cost,
            Instruction::GetGlobal(_) => self.global_cost,
            Instruction::SetGlobal(_) => self.global_cost,
            Instruction::Call(_) => self.call_cost,
            Instruction::Unreachable => self.control_cost,
            Instruction::Nop => self.control_cost,
            Instruction::Block => self.control_cost,
            Instruction::Loop => self.control_cost,
            Instruction::If => self.control_cost,
            Instruction::Else => self.control_cost,
            Instruction::End => self.control_cost,
            Instruction::Br(_) => self.control_cost,
            Instruction::BrIf(_) => self.control_cost,
            Instruction::Return => self.control_cost,
        }
    }

    /// Per-local cost charged for each call.
    pub fn call_per_local_cost(&self) -> (r: u32)
        ensures
            r == self.call_per_local,
    {
        self.call_per_local
    }
}

} // verus!
