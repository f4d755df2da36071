//! A convenient way to set up a machine around a small program.
use std::sync::Arc;
use vstd::prelude::*;

use crate::bitmask::BitMask;
use crate::memory::Memory;
use crate::program::Program;
use crate::registers::Registers;
use crate::start_set::StartSet;
use crate::types::{VmContext, VmState};
use crate::vm::Vm;

verus! {

/// An address inside the fully accessible memory that `new` sets up.
pub const TEST_ADDR: u32 = 0x10E00;

pub struct VmTestBuilder {
    pub program: Program,
    pub bitmask: BitMask,
    pub registers: Registers,
    pub pc: usize,
    pub gas: u64,
    pub jump_table: Vec<usize>,
    pub memory: Option<Memory>,
}

impl VmTestBuilder {
    /// A machine at `pc` 0 with 1000 gas, zero registers, no jump table and
    /// 33 pages of readable and writable memory.
    pub fn new(program_vec: Vec<u8>, bitmask_bytes: &[u8]) -> (r: Self)
        requires
            program_vec@.len() + bitmask_bytes@.len() <= usize::MAX / 128,
        ensures
            r.program.wf(),
            r.program.code() == program_vec@,
            r.bitmask.wf(),
            r.bitmask.limit == program_vec@.len(),
            r.pc == 0,
            r.gas == 1000,
            r.jump_table@.len() == 0,
            r.registers@ == Seq::new(13, |i: int| 0u64),
            r.memory matches Some(m) ==> m.wf(),
    {
        let program = Program::from_vec(program_vec);
        let program_len = program.len();
        let bitmask = BitMask::from_bytes(bitmask_bytes, program_len);
        Self {
            program,
            bitmask,
            registers: Registers::new(),
            pc: 0,
            gas: 1000,
            jump_table: Vec::new(),
            memory: Memory::test_memory(33),
        }
    }

    pub fn with_registers(self, registers: Registers) -> (r: Self)
        ensures
            r.registers == registers,
            r.program == self.program,
            r.bitmask == self.bitmask,
            r.jump_table == self.jump_table,
            r.memory == self.memory,
    {
        Self { registers, ..self }
    }

    pub fn with_jump_table(self, jump_table: Vec<usize>) -> (r: Self)
        ensures
            r.jump_table == jump_table,
            r.program == self.program,
            r.bitmask == self.bitmask,
            r.registers == self.registers,
            r.memory == self.memory,
    {
        Self { jump_table, ..self }
    }

    pub fn with_memory(self, memory: Memory) -> (r: Self)
        ensures
            r.memory == Some(memory),
            r.program == self.program,
            r.bitmask == self.bitmask,
            r.registers == self.registers,
            r.jump_table == self.jump_table,
    {
        Self { memory: Some(memory), ..self }
    }

    /// The machine, or `None` when no memory could be set up.
    pub fn build(self) -> (r: Option<Vm>)
        requires
            self.program.wf(),
        ensures
            self.memory is None ==> r is None,
            r matches Some(vm) ==> {
                &&& vm.context.program == self.program
                &&& vm.context.jump_table == self.jump_table
                &&& vm.state.registers == self.registers
                &&& vm.state.pc == self.pc
                &&& vm.state.initial_gas == self.gas
                &&& vm.state.spent_gas == 0
                &&& self.memory == Some(vm.memory)
            },
    {
        let memory = match self.memory {
            Some(m) => m,
            None => return None,
        };
        let start_set = StartSet::build(&self.program, &self.bitmask);
        let context = Arc::new(
            VmContext { program: self.program, bitmask: self.bitmask, jump_table: self.jump_table, start_set },
        );
        let state = VmState::new(self.registers, self.pc, self.gas);
        Some(Vm::test_instance(context, state, memory))
    }
}

} // verus!
