//! Machine state, the immutable program context and the results of steps and runs.
use vstd::prelude::*;

use crate::bitmask::BitMask;
use crate::consts::HALT_ADDRESS;
use crate::program::Program;
use crate::registers::Registers;
use crate::start_set::StartSet;

verus! {

/// What one instruction asks of the driver.
#[derive(Debug, Clone, Copy, PartialEq, Eq, Structural)]
pub enum InstructionResult {
    Continue,
    Jump(usize),
    Halt,
    Panic,
    Fault { page: usize },
    Ecall { call_id: u64 },
}

/// The outcome of one step, as the run loop sees it.
#[derive(Debug, Clone, Copy, PartialEq, Eq, Structural)]
pub enum StepResult {
    Continue,
    Halt,
    Panic,
    Fault { page: usize },
    Ecall { call_id: u64 },
}

pub open spec fn step_of(r: InstructionResult) -> StepResult {
    match r {
        InstructionResult::Continue => StepResult::Continue,
        InstructionResult::Jump(..) => StepResult::Continue,
        InstructionResult::Halt => StepResult::Halt,
        InstructionResult::Panic => StepResult::Panic,
        InstructionResult::Fault { page } => StepResult::Fault { page },
        InstructionResult::Ecall { call_id } => StepResult::Ecall { call_id },
    }
}

impl From<InstructionResult> for StepResult {
    fn from(instruction_result: InstructionResult) -> (r: Self) {
        match instruction_result {
            InstructionResult::Continue => StepResult::Continue,
            InstructionResult::Jump(..) => StepResult::Continue,
            InstructionResult::Halt => StepResult::Halt,
            InstructionResult::Panic => StepResult::Panic,
            InstructionResult::Fault { page } => StepResult::Fault { page },
            InstructionResult::Ecall { call_id } => StepResult::Ecall { call_id },
        }
    }
}

impl vstd::std_specs::convert::FromSpecImpl<InstructionResult> for StepResult {
    open spec fn obeys_from_spec() -> bool {
        true
    }

    open spec fn from_spec(v: InstructionResult) -> StepResult {
        step_of(v)
    }
}

/// How a run ended.
#[derive(Debug, Clone, Copy, PartialEq, Eq, Structural)]
pub enum ExecutionResult {
    Halt,
    Panic,
    OutOfGas,
    Fault { page: usize },
    HostCall { call_id: u64 },
}

/// The run's outcome for the step that ended it; a step that would have
/// continued ends the run only for want of gas.
pub open spec fn execution_of(r: StepResult) -> ExecutionResult {
    match r {
        StepResult::Continue => ExecutionResult::OutOfGas,
        StepResult::Halt => ExecutionResult::Halt,
        StepResult::Panic => ExecutionResult::Panic,
        StepResult::Fault { page } => ExecutionResult::Fault { page },
        StepResult::Ecall { call_id } => ExecutionResult::HostCall { call_id },
    }
}

impl From<StepResult> for ExecutionResult {
    fn from(exit_reason: StepResult) -> (r: Self) {
        match exit_reason {
            StepResult::Continue => ExecutionResult::OutOfGas,
            StepResult::Halt => ExecutionResult::Halt,
            StepResult::Panic => ExecutionResult::Panic,
            StepResult::Fault { page } => ExecutionResult::Fault { page },
            StepResult::Ecall { call_id } => ExecutionResult::HostCall { call_id },
        }
    }
}

impl vstd::std_specs::convert::FromSpecImpl<StepResult> for ExecutionResult {
    open spec fn obeys_from_spec() -> bool {
        true
    }

    open spec fn from_spec(v: StepResult) -> ExecutionResult {
        execution_of(v)
    }
}

/// The mutable part of a machine.
#[derive(Debug, Clone, Copy)]
pub struct VmState {
    pub registers: Registers,
    pub pc: usize,
    pub initial_gas: u64,
    pub spent_gas: u64,
}

impl VmState {
    pub fn new(registers: Registers, pc: usize, gas: u64) -> (r: Self)
        ensures
            r.registers == registers,
            r.pc == pc,
            r.initial_gas == gas,
            r.spent_gas == 0,
    {
        Self { registers, pc, initial_gas: gas, spent_gas: 0 }
    }

    pub fn consume_gas(&mut self, amount: u64)
        requires
            old(self).spent_gas + amount <= u64::MAX,
        ensures
            final(self).spent_gas == old(self).spent_gas + amount,
            final(self).registers == old(self).registers,
            final(self).pc == old(self).pc,
            final(self).initial_gas == old(self).initial_gas,
    {
        self.spent_gas = self.spent_gas + amount;
    }

    pub open spec fn has_gas_spec(&self) -> bool {
        self.spent_gas <= self.initial_gas
    }

    pub fn has_gas(&self) -> (r: bool)
        ensures
            r == self.has_gas_spec(),
    {
        self.initial_gas >= self.spent_gas
    }
}

/// What every run of one program shares: the code, its bitmask, the jump
/// table and the valid jump targets.
#[derive(Debug)]
pub struct VmContext {
    pub program: Program,
    pub bitmask: BitMask,
    pub jump_table: Vec<usize>,
    pub start_set: StartSet,
}

impl VmContext {
    pub open spec fn wf(&self) -> bool {
        self.program.wf()
    }

    pub open spec fn branch_spec(&self, destination: usize, should_branch: bool) -> InstructionResult {
        if !should_branch {
            InstructionResult::Continue
        } else if self.start_set.contains(destination as int) {
            InstructionResult::Jump(destination)
        } else {
            InstructionResult::Panic
        }
    }

    /// A taken branch lands on a valid jump target or panics; an untaken one continues.
    pub fn branch(&self, destination: usize, should_branch: bool) -> (r: InstructionResult)
        ensures
            r == self.branch_spec(destination, should_branch),
    {
        if !should_branch {
            InstructionResult::Continue
        } else if self.start_set.includes(destination) {
            InstructionResult::Jump(destination)
        } else {
            InstructionResult::Panic
        }
    }

    pub open spec fn djump_spec(&self, destination: usize) -> InstructionResult {
        if destination == HALT_ADDRESS {
            InstructionResult::Halt
        } else if destination == 0 || destination % 2 == 1 || destination > 2 * self.jump_table@.len() {
            InstructionResult::Panic
        } else {
            let target = self.jump_table@[destination / 2 - 1];
            if self.start_set.contains(target as int) {
                InstructionResult::Jump(target)
            } else {
                InstructionResult::Panic
            }
        }
    }

    /// A dynamic jump through the jump table: the halt address halts, entry
    /// `d / 2 - 1` is taken for a valid even `d`, and anything else panics.
    pub fn djump(&self, destination: usize) -> (r: InstructionResult)
        ensures
            r == self.djump_spec(destination),
    {
        if destination as u64 == HALT_ADDRESS {
            InstructionResult::Halt
        } else if destination == 0 || destination % 2 == 1 || destination / 2 > self.jump_table.len() {
            InstructionResult::Panic
        } else {
            let jump_to = self.jump_table[destination / 2 - 1];
            if self.start_set.includes(jump_to) {
                InstructionResult::Jump(jump_to)
            } else {
                InstructionResult::Panic
            }
        }
    }
}

} // verus!
