//! The fetch-decode-execute loop.
use vstd::prelude::*;

use crate::category::{category_of, get_category, InstructionCategory};
use crate::consts::GAS_COST;
use crate::dispatch::{
    dispatch_no_args,
    dispatch_one_immediate,
    dispatch_reg_immediate,
    dispatch_reg_immediate_offset,
    dispatch_reg_two_imm,
    dispatch_three_registers,
    dispatch_two_immediates,
    dispatch_two_registers,
    dispatch_two_registers_one_immediate,
    dispatch_two_registers_one_offset,
    dispatch_two_registers_two_immediates,
    one_immediate_effect,
    reg_imm_bytes,
    reg_imm_effect,
    reg_imm_offset_effect,
    reg_two_imm_bytes,
    reg_two_imm_effect,
    sbrk_memory,
    three_regs_effect,
    two_imm_bytes,
    two_imm_effect,
    two_regs_effect,
    two_regs_imm_bytes,
    two_regs_imm_effect,
    two_regs_offset_effect,
    two_regs_operands,
    two_regs_two_imm_effect,
};
use crate::opcodes::{FALLTHROUGH, SBRK};
use crate::operands::{code_byte, decodable, skip_at};
use crate::types::{execution_of, step_of, ExecutionResult, InstructionResult, StepResult, VmContext};
use crate::vm::Vm;

verus! {

/// Result and registers after executing `opcode` at the machine's `pc`.
pub open spec fn instruction_effect(vm: &Vm, opcode: u8) -> (InstructionResult, Seq<u64>) {
    let ctx = &*vm.context;
    let pc = vm.state.pc;
    let regs = vm.state.registers@;
    match category_of(opcode) {
        InstructionCategory::NoArgs => (
            if opcode == FALLTHROUGH {
                InstructionResult::Continue
            } else {
                InstructionResult::Panic
            },
            regs,
        ),
        InstructionCategory::OneImmediate => (one_immediate_effect(ctx, pc, opcode), regs),
        InstructionCategory::TwoImmediates => (two_imm_effect(vm, opcode), regs),
        InstructionCategory::RegImmediate => reg_imm_effect(vm, opcode),
        InstructionCategory::RegImmediateOffset => reg_imm_offset_effect(ctx, pc, regs, opcode),
        InstructionCategory::RegTwoImm => (reg_two_imm_effect(vm, opcode), regs),
        InstructionCategory::ThreeRegisters => three_regs_effect(ctx, pc, regs, opcode),
        InstructionCategory::TwoRegistersOneImmediate => two_regs_imm_effect(vm, opcode),
        InstructionCategory::TwoRegistersOneOffset => (two_regs_offset_effect(ctx, pc, regs, opcode), regs),
        InstructionCategory::TwoRegistersTwoImmediates => two_regs_two_imm_effect(ctx, pc, regs, opcode),
        InstructionCategory::TwoRegisters => two_regs_effect(vm, opcode),
        InstructionCategory::Unknown => (InstructionResult::Panic, regs),
    }
}

/// Memory bytes after executing `opcode` at the machine's `pc`.
pub open spec fn instruction_bytes(vm: &Vm, opcode: u8) -> Seq<u8> {
    match category_of(opcode) {
        InstructionCategory::TwoImmediates => two_imm_bytes(vm, opcode),
        InstructionCategory::RegImmediate => reg_imm_bytes(vm, opcode),
        InstructionCategory::RegTwoImm => reg_two_imm_bytes(vm, opcode),
        InstructionCategory::TwoRegistersOneImmediate => two_regs_imm_bytes(vm, opcode),
        _ => vm.memory.bytes(),
    }
}

/// Permissions and heap pointers after executing `opcode`: only `SBRK` changes them.
pub open spec fn instruction_heap(before: &Vm, after: &Vm, opcode: u8) -> bool {
    if opcode == SBRK {
        sbrk_memory(
            &before.memory,
            &after.memory,
            before.state.registers@[two_regs_operands(&*before.context, before.state.pc).0],
        )
    } else {
        &&& after.memory.access@ == before.memory.access@
        &&& after.memory.current_heap_pointer == before.memory.current_heap_pointer
        &&& after.memory.max_heap_pointer == before.memory.max_heap_pointer
    }
}

/// Where execution goes after an instruction at `pc` with result `r`.
pub open spec fn next_pc(ctx: &VmContext, pc: usize, r: InstructionResult) -> usize {
    match r {
        InstructionResult::Continue => (pc + 1 + skip_at(ctx, pc)) as usize,
        InstructionResult::Ecall { .. } => (pc + 1 + skip_at(ctx, pc)) as usize,
        InstructionResult::Jump(destination) => destination,
        InstructionResult::Halt => 0,
        InstructionResult::Panic => 0,
        InstructionResult::Fault { .. } => pc,
    }
}

/// `after` is `before` after one step with result `r`: outside the code the
/// step panics and changes nothing; otherwise the instruction at `pc` runs,
/// one unit of gas is charged and `pc` moves on.
pub open spec fn step_post(before: &Vm, after: &Vm, r: StepResult) -> bool {
    &&& after.wf()
    &&& after.context == before.context
    &&& after.context_token == before.context_token
    &&& after.state.initial_gas == before.state.initial_gas
    &&& before.state.pc >= before.context.program.size ==> {
        &&& r == StepResult::Panic
        &&& *after == *before
    }
    &&& before.state.pc < before.context.program.size ==> {
        let opcode = code_byte(&*before.context, before.state.pc as int);
        let (ir, regs) = instruction_effect(before, opcode);
        &&& r == step_of(ir)
        &&& after.state.spent_gas == before.state.spent_gas + 1
        &&& after.state.pc == next_pc(&*before.context, before.state.pc, ir)
        &&& after.state.registers@ == regs
        &&& after.memory.bytes() == instruction_bytes(before, opcode)
        &&& instruction_heap(before, after, opcode)
    }
}

/// `after` follows `before` by one step that continued with gas left.
pub open spec fn continues(before: Vm, after: Vm) -> bool {
    &&& before.wf()
    &&& before.state.spent_gas < u64::MAX
    &&& step_post(&before, &after, StepResult::Continue)
    &&& after.state.has_gas_spec()
}

/// A run's states, each reached from the one before by a step that
/// continued with gas left.
pub open spec fn continuing_trace(trace: Seq<Vm>) -> bool {
    &&& trace.len() > 0
    &&& forall|i: int| 0 <= i < trace.len() - 1 ==> #[trigger] continues(trace[i], trace[i + 1])
}

/// How the run's last step, from `mid` to `after` with result `s`, ends the run.
pub open spec fn last_step(mid: Vm, after: Vm, s: StepResult, r: ExecutionResult) -> bool {
    &&& mid.state.spent_gas < u64::MAX
    &&& step_post(&mid, &after, s)
    &&& if s == StepResult::Continue {
        &&& !after.state.has_gas_spec()
        &&& r == ExecutionResult::OutOfGas
    } else {
        r == execution_of(s)
    }
}

/// A run from `before` ends in `after` with result `r`: after some steps that
/// continued with gas left, either the gas counter stands at `u64::MAX` and
/// the run stops as out of gas, or one more step ends it. That last step's
/// result is the run's, except that a step which continues with the gas
/// spent gives out of gas.
pub open spec fn run_post(before: Vm, after: Vm, r: ExecutionResult) -> bool {
    exists|trace: Seq<Vm>|
        #[trigger] continuing_trace(trace) && trace[0] == before && {
            let mid = trace.last();
            ||| (mid.state.spent_gas == u64::MAX && after == mid && r == ExecutionResult::OutOfGas)
            ||| exists|s: StepResult| #[trigger] last_step(mid, after, s, r)
        }
}

impl Vm {
    pub fn dispatch_no_args(&self, opcode: u8) -> (r: InstructionResult)
        ensures
            r == (if opcode == FALLTHROUGH {
                InstructionResult::Continue
            } else {
                InstructionResult::Panic
            }),
    {
        dispatch_no_args(opcode)
    }

    pub fn dispatch_one_immediate(&mut self, opcode: u8) -> (r: InstructionResult)
        requires
            decodable(&*old(self).context, old(self).state.pc),
        ensures
            r == one_immediate_effect(&*old(self).context, old(self).state.pc, opcode),
            *final(self) == *old(self),
    {
        dispatch_one_immediate(opcode, &self.context, &mut self.state)
    }

    pub fn dispatch_reg_immediate_offset(&mut self, opcode: u8) -> (r: InstructionResult)
        requires
            decodable(&*old(self).context, old(self).state.pc),
        ensures
            (r, final(self).state.registers@) == reg_imm_offset_effect(
                &*old(self).context,
                old(self).state.pc,
                old(self).state.registers@,
                opcode,
            ),
            final(self).memory == old(self).memory,
            old(self).same_but_data(final(self)),
    {
        dispatch_reg_immediate_offset(opcode, &self.context, &mut self.state)
    }

    pub fn dispatch_two_registers_one_offset(&mut self, opcode: u8) -> (r: InstructionResult)
        requires
            decodable(&*old(self).context, old(self).state.pc),
        ensures
            r == two_regs_offset_effect(&*old(self).context, old(self).state.pc, old(self).state.registers@, opcode),
            *final(self) == *old(self),
    {
        dispatch_two_registers_one_offset(opcode, &self.context, &mut self.state)
    }

    pub fn dispatch_two_immediates(&mut self, opcode: u8) -> (r: InstructionResult)
        requires
            old(self).wf(),
            decodable(&*old(self).context, old(self).state.pc),
        ensures
            r == two_imm_effect(old(self), opcode),
            final(self).memory.bytes() == two_imm_bytes(old(self), opcode),
            final(self).wf(),
            final(self).state == old(self).state,
            final(self).memory.access@ == old(self).memory.access@,
            final(self).memory.current_heap_pointer == old(self).memory.current_heap_pointer,
            final(self).memory.max_heap_pointer == old(self).memory.max_heap_pointer,
            old(self).same_but_data(final(self)),
    {
        dispatch_two_immediates(opcode, self)
    }

    pub fn dispatch_reg_immediate(&mut self, opcode: u8) -> (r: InstructionResult)
        requires
            old(self).wf(),
            decodable(&*old(self).context, old(self).state.pc),
        ensures
            (r, final(self).state.registers@) == reg_imm_effect(old(self), opcode),
            final(self).memory.bytes() == reg_imm_bytes(old(self), opcode),
            final(self).wf(),
            final(self).memory.access@ == old(self).memory.access@,
            final(self).memory.current_heap_pointer == old(self).memory.current_heap_pointer,
            final(self).memory.max_heap_pointer == old(self).memory.max_heap_pointer,
            old(self).same_but_data(final(self)),
    {
        dispatch_reg_immediate(opcode, self)
    }

    pub fn dispatch_reg_two_imm(&mut self, opcode: u8) -> (r: InstructionResult)
        requires
            old(self).wf(),
            decodable(&*old(self).context, old(self).state.pc),
        ensures
            r == reg_two_imm_effect(old(self), opcode),
            final(self).memory.bytes() == reg_two_imm_bytes(old(self), opcode),
            final(self).wf(),
            final(self).state == old(self).state,
            final(self).memory.access@ == old(self).memory.access@,
            final(self).memory.current_heap_pointer == old(self).memory.current_heap_pointer,
            final(self).memory.max_heap_pointer == old(self).memory.max_heap_pointer,
            old(self).same_but_data(final(self)),
    {
        dispatch_reg_two_imm(opcode, self)
    }

    pub fn dispatch_three_registers(&mut self, opcode: u8) -> (r: InstructionResult)
        requires
            old(self).wf(),
            decodable(&*old(self).context, old(self).state.pc),
        ensures
            (r, final(self).state.registers@) == three_regs_effect(
                &*old(self).context,
                old(self).state.pc,
                old(self).state.registers@,
                opcode,
            ),
            final(self).memory == old(self).memory,
            old(self).same_but_data(final(self)),
    {
        dispatch_three_registers(opcode, self)
    }

    pub fn dispatch_two_registers_one_immediate(&mut self, opcode: u8) -> (r: InstructionResult)
        requires
            old(self).wf(),
            decodable(&*old(self).context, old(self).state.pc),
        ensures
            (r, final(self).state.registers@) == two_regs_imm_effect(old(self), opcode),
            final(self).memory.bytes() == two_regs_imm_bytes(old(self), opcode),
            final(self).wf(),
            final(self).memory.access@ == old(self).memory.access@,
            final(self).memory.current_heap_pointer == old(self).memory.current_heap_pointer,
            final(self).memory.max_heap_pointer == old(self).memory.max_heap_pointer,
            old(self).same_but_data(final(self)),
    {
        dispatch_two_registers_one_immediate(opcode, self)
    }

    pub fn dispatch_two_registers_two_immediates(&mut self, opcode: u8) -> (r: InstructionResult)
        requires
            old(self).wf(),
            decodable(&*old(self).context, old(self).state.pc),
        ensures
            (r, final(self).state.registers@) == two_regs_two_imm_effect(
                &*old(self).context,
                old(self).state.pc,
                old(self).state.registers@,
                opcode,
            ),
            final(self).memory == old(self).memory,
            old(self).same_but_data(final(self)),
    {
        dispatch_two_registers_two_immediates(opcode, self)
    }

    pub fn dispatch_two_registers(&mut self, opcode: u8) -> (r: InstructionResult)
        requires
            old(self).wf(),
            decodable(&*old(self).context, old(self).state.pc),
        ensures
            (r, final(self).state.registers@) == two_regs_effect(old(self), opcode),
            final(self).wf(),
            opcode == SBRK ==> sbrk_memory(
                &old(self).memory,
                &final(self).memory,
                old(self).state.registers@[two_regs_operands(&*old(self).context, old(self).state.pc).0],
            ),
            opcode != SBRK ==> final(self).memory == old(self).memory,
            old(self).same_but_data(final(self)),
    {
        dispatch_two_registers(opcode, self)
    }

    /// Executes the instruction `opcode` at `pc` by its operand shape.
    pub fn execute_instruction(&mut self, opcode: u8) -> (r: InstructionResult)
        requires
            old(self).wf(),
            decodable(&*old(self).context, old(self).state.pc),
        ensures
            (r, final(self).state.registers@) == instruction_effect(old(self), opcode),
            final(self).memory.bytes() == instruction_bytes(old(self), opcode),
            instruction_heap(old(self), final(self), opcode),
            final(self).wf(),
            old(self).same_but_data(final(self)),
    {
        match get_category(opcode) {
            InstructionCategory::NoArgs => self.dispatch_no_args(opcode),
            InstructionCategory::OneImmediate => self.dispatch_one_immediate(opcode),
            InstructionCategory::TwoImmediates => self.dispatch_two_immediates(opcode),
            InstructionCategory::RegImmediate => self.dispatch_reg_immediate(opcode),
            InstructionCategory::RegImmediateOffset => self.dispatch_reg_immediate_offset(opcode),
            InstructionCategory::RegTwoImm => self.dispatch_reg_two_imm(opcode),
            InstructionCategory::ThreeRegisters => self.dispatch_three_registers(opcode),
            InstructionCategory::TwoRegistersOneImmediate => self.dispatch_two_registers_one_immediate(opcode),
            InstructionCategory::TwoRegistersOneOffset => self.dispatch_two_registers_one_offset(opcode),
            InstructionCategory::TwoRegistersTwoImmediates => self.dispatch_two_registers_two_immediates(opcode),
            InstructionCategory::TwoRegisters => self.dispatch_two_registers(opcode),
            InstructionCategory::Unknown => InstructionResult::Panic,
        }
    }

    /// The `pc` that follows an instruction at `prev_counter` with result `exit_reason`.
    pub fn next_counter(&self, exit_reason: &InstructionResult, prev_counter: usize) -> (r: usize)
        requires
            decodable(&*self.context, prev_counter),
        ensures
            r == next_pc(&*self.context, prev_counter, *exit_reason),
    {
        match exit_reason {
            InstructionResult::Continue => prev_counter + 1 + self.context.bitmask.skip(prev_counter),
            InstructionResult::Ecall { .. } => prev_counter + 1 + self.context.bitmask.skip(prev_counter),
            InstructionResult::Jump(destination) => *destination,
            InstructionResult::Halt => 0,
            InstructionResult::Panic => 0,
            InstructionResult::Fault { .. } => prev_counter,
        }
    }

    /// One step: outside the code it panics without charging gas; otherwise it
    /// executes the instruction at `pc`, charges one unit of gas and moves `pc`.
    pub fn single_step_run(&mut self) -> (r: StepResult)
        requires
            old(self).wf(),
            old(self).state.spent_gas < u64::MAX,
        ensures
            final(self).wf(),
            final(self).context == old(self).context,
            final(self).context_token == old(self).context_token,
            final(self).state.initial_gas == old(self).state.initial_gas,
            step_post(old(self), final(self), r),
    {
        if self.state.pc >= self.context.program.len() {
            return StepResult::Panic;
        }
        let opcode = self.context.program.at(self.state.pc);
        let prev_counter = self.state.pc;
        let exit_reason = self.execute_instruction(opcode);
        self.state.consume_gas(GAS_COST);
        let next_counter = self.next_counter(&exit_reason, prev_counter);
        self.state.pc = next_counter;
        StepResult::from(exit_reason)
    }

    /// Steps until a step does not continue or the gas is spent; a run that
    /// has spent `u64::MAX` gas stops as out of gas. The whole run is
    /// described by `run_post`.
    pub fn execute(&mut self) -> (r: ExecutionResult)
        requires
            old(self).wf(),
        ensures
            final(self).wf(),
            final(self).context == old(self).context,
            final(self).context_token == old(self).context_token,
            final(self).state.initial_gas == old(self).state.initial_gas,
            final(self).state.spent_gas >= old(self).state.spent_gas,
            run_post(*old(self), *final(self), r),
        decreases u64::MAX - old(self).state.spent_gas,
    {
        let ghost start = *self;
        let ghost mut trace: Seq<Vm> = seq![start];
        loop
            invariant
                self.wf(),
                self.context == start.context,
                self.context_token == start.context_token,
                self.state.initial_gas == start.state.initial_gas,
                self.state.spent_gas >= start.state.spent_gas,
                start == *old(self),
                continuing_trace(trace),
                trace[0] == start,
                trace.last() == *self,
            decreases u64::MAX - self.state.spent_gas,
        {
            if self.state.spent_gas == u64::MAX {
                return ExecutionResult::OutOfGas;
            }
            let ghost before = *self;
            let exit_reason = self.single_step_run();
            match exit_reason {
                StepResult::Continue => {
                    if !self.state.has_gas() {
                        assert(last_step(before, *self, exit_reason, ExecutionResult::OutOfGas));
                        return ExecutionResult::OutOfGas;
                    }
                    proof {
                        assert(continues(before, *self));
                        let old_trace = trace;
                        trace = trace.push(*self);
                        assert forall|i: int| 0 <= i < trace.len() - 1 implies #[trigger] continues(
                            trace[i],
                            trace[i + 1],
                        ) by {
                            if i < old_trace.len() - 1 {
                                assert(continues(old_trace[i], old_trace[i + 1]));
                            }
                        }
                    }
                },
                _ => {
                    let r = ExecutionResult::from(exit_reason);
                    assert(last_step(before, *self, exit_reason, r));
                    return r;
                },
            }
        }
    }
}

} // verus!
