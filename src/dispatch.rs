//! Decoding and execution of one instruction, one function per operand shape.
use vstd::prelude::*;

use crate::opcodes::{
    ECALLI,
    FALLTHROUGH,
    JUMP,
    JUMP_IND,
    LOAD_IMM,
    LOAD_IMM_64,
    LOAD_IMM_JUMP,
    LOAD_IMM_JUMP_IND,
    LOAD_IND_U64,
    LOAD_IND_U8,
    LOAD_U64,
    LOAD_U8,
    SBRK,
    STORE_IMM_IND_U64,
    STORE_IMM_IND_U8,
    STORE_IMM_U64,
    STORE_IMM_U8,
    STORE_IND_U64,
    STORE_IND_U8,
    STORE_U64,
    STORE_U8,
    TRAP,
};
use crate::operands::{
    byte_of_code,
    clamp_reg,
    code_byte,
    decodable,
    high_reg,
    imm_at,
    imm_of,
    low_reg,
    min4,
    min4_exec,
    raw_at,
    raw_of,
    reg_hi,
    reg_lo,
    relative_target,
    sat,
    skip_at,
    skip_of,
    target_of,
};
use crate::semantics::{
    branch_imm_cond,
    branch_imm_test,
    branch_reg_cond,
    branch_reg_test,
    load_kind,
    load_kind_of,
    store_width,
    store_width_of,
    three_reg_alu,
    three_reg_value,
    two_reg_alu,
    two_reg_imm_alu,
    two_reg_imm_value,
    two_reg_value,
};
use crate::memory::{pages_end, Memory, Permission};
use crate::types::{InstructionResult, VmContext, VmState};
use crate::vm::{load_effect, store_effect, stored_bytes, Vm};

verus! {

/// Instructions without operands: `FALLTHROUGH` continues, anything else panics.
pub fn dispatch_no_args(opcode: u8) -> (r: InstructionResult)
    ensures
        r == if opcode == FALLTHROUGH {
            InstructionResult::Continue
        } else {
            InstructionResult::Panic
        },
{
    if opcode == TRAP {
        InstructionResult::Panic
    } else if opcode == FALLTHROUGH {
        InstructionResult::Continue
    } else {
        InstructionResult::Panic
    }
}

/// Length of the single immediate of `ECALLI` and `JUMP`.
pub open spec fn one_imm_len(ctx: &VmContext, pc: usize) -> int {
    min4(skip_at(ctx, pc))
}

pub open spec fn one_immediate_effect(ctx: &VmContext, pc: usize, opcode: u8) -> InstructionResult {
    let l = one_imm_len(ctx, pc);
    if opcode == ECALLI {
        InstructionResult::Ecall { call_id: raw_at(ctx, pc + 1, l) }
    } else if opcode == JUMP {
        ctx.branch_spec(target_of(pc, imm_at(ctx, pc + 1, l)), true)
    } else {
        InstructionResult::Panic
    }
}

/// `ECALLI` (a host call with an unsigned immediate id) and `JUMP` (by a signed offset from `pc`).
pub fn dispatch_one_immediate(opcode: u8, context: &VmContext, state: &mut VmState) -> (r: InstructionResult)
    requires
        decodable(context, old(state).pc),
    ensures
        r == one_immediate_effect(context, old(state).pc, opcode),
        *final(state) == *old(state),
{
    let pc = state.pc;
    if opcode == ECALLI {
        let l_x = min4_exec(skip_of(context, pc));
        let value = raw_of(context, pc + 1, l_x);
        InstructionResult::Ecall { call_id: value }
    } else if opcode == JUMP {
        let l_x = min4_exec(skip_of(context, pc));
        let offset = imm_of(context, pc + 1, l_x);
        context.branch(relative_target(pc, offset), true)
    } else {
        InstructionResult::Panic
    }
}

/// Register, immediate and branch target of the register-immediate-offset shape.
pub open spec fn reg_imm_offset_operands(ctx: &VmContext, pc: usize) -> (int, u64, usize) {
    let b1 = code_byte(ctx, pc + 1);
    let l_x = min4(((b1 / 16) % 8) as int);
    let l_y = min4(sat(skip_at(ctx, pc) - l_x - 1));
    (reg_lo(b1), imm_at(ctx, pc + 2, l_x), target_of(pc, imm_at(ctx, pc + 2 + l_x, l_y)))
}

pub open spec fn reg_imm_offset_effect(ctx: &VmContext, pc: usize, regs: Seq<u64>, opcode: u8) -> (
    InstructionResult,
    Seq<u64>,
) {
    let (r_a, v_x, target) = reg_imm_offset_operands(ctx, pc);
    if opcode == LOAD_IMM_JUMP {
        (ctx.branch_spec(target, true), regs.update(r_a, v_x))
    } else {
        match branch_imm_cond(opcode, regs[r_a], v_x) {
            Some(c) => (ctx.branch_spec(target, c), regs),
            None => (InstructionResult::Panic, regs),
        }
    }
}

fn get_reg_imm_offset_params(context: &VmContext, pc: usize) -> (r: (usize, u64, usize))
    requires
        decodable(context, pc),
    ensures
        r.0 < 13,
        (r.0 as int, r.1, r.2) == reg_imm_offset_operands(context, pc),
{
    let first_byte = byte_of_code(context, pc + 1);
    let r_a = low_reg(first_byte);
    let l_x = min4_exec(((first_byte / 16) % 8) as usize);
    let skip_value = skip_of(context, pc);
    let l_y = min4_exec(skip_value.saturating_sub(l_x).saturating_sub(1));
    let v_x = imm_of(context, pc + 2, l_x);
    let offset = imm_of(context, pc + 2 + l_x, l_y);
    (r_a, v_x, relative_target(pc, offset))
}

/// `LOAD_IMM_JUMP` and the register-immediate branches.
pub fn dispatch_reg_immediate_offset(opcode: u8, context: &VmContext, state: &mut VmState) -> (r: InstructionResult)
    requires
        decodable(context, old(state).pc),
    ensures
        (r, final(state).registers@) == reg_imm_offset_effect(context, old(state).pc, old(state).registers@, opcode),
        final(state).pc == old(state).pc,
        final(state).initial_gas == old(state).initial_gas,
        final(state).spent_gas == old(state).spent_gas,
{
    let (r_a, v_x, v_y) = get_reg_imm_offset_params(context, state.pc);
    if opcode == LOAD_IMM_JUMP {
        state.registers.set(r_a, v_x);
        context.branch(v_y, true)
    } else {
        let w_a = state.registers.get(r_a);
        match branch_imm_test(opcode, w_a, v_x) {
            Some(c) => context.branch(v_y, c),
            None => InstructionResult::Panic,
        }
    }
}

/// Registers and branch target of the two-registers-one-offset shape.
pub open spec fn two_regs_offset_operands(ctx: &VmContext, pc: usize) -> (int, int, usize) {
    let b1 = code_byte(ctx, pc + 1);
    let l_x = min4(sat(skip_at(ctx, pc) - 1));
    (reg_lo(b1), reg_hi(b1), target_of(pc, imm_at(ctx, pc + 2, l_x)))
}

pub open spec fn two_regs_offset_effect(ctx: &VmContext, pc: usize, regs: Seq<u64>, opcode: u8) -> InstructionResult {
    let (r_a, r_b, target) = two_regs_offset_operands(ctx, pc);
    match branch_reg_cond(opcode, regs[r_a], regs[r_b]) {
        Some(c) => ctx.branch_spec(target, c),
        None => InstructionResult::Panic,
    }
}

fn get_two_registers_one_offset_params(context: &VmContext, state: &VmState) -> (r: (u64, u64, usize))
    requires
        decodable(context, state.pc),
    ensures
        ({
            let (r_a, r_b, target) = two_regs_offset_operands(context, state.pc);
            r == (state.registers@[r_a], state.registers@[r_b], target)
        }),
{
    let pc = state.pc;
    let byte1 = byte_of_code(context, pc + 1);
    let r_a = low_reg(byte1);
    let r_b = high_reg(byte1);
    let l_x = min4_exec(skip_of(context, pc).saturating_sub(1));
    let offset = imm_of(context, pc + 2, l_x);
    (state.registers.get(r_a), state.registers.get(r_b), relative_target(pc, offset))
}

/// The register-register branches.
pub fn dispatch_two_registers_one_offset(opcode: u8, context: &VmContext, state: &mut VmState) -> (r: InstructionResult)
    requires
        decodable(context, old(state).pc),
    ensures
        r == two_regs_offset_effect(context, old(state).pc, old(state).registers@, opcode),
        *final(state) == *old(state),
{
    let (w_a, w_b, v_x) = get_two_registers_one_offset_params(context, state);
    match branch_reg_test(opcode, w_a, w_b) {
        Some(c) => context.branch(v_x, c),
        None => InstructionResult::Panic,
    }
}

/// Registers of the three-registers shape: two sources and a destination.
pub open spec fn three_regs_operands(ctx: &VmContext, pc: usize) -> (int, int, int) {
    let b1 = code_byte(ctx, pc + 1);
    let b2 = code_byte(ctx, pc + 2);
    (reg_lo(b1), reg_hi(b1), if b2 < 12 { b2 as int } else { 12 })
}

pub open spec fn three_regs_effect(ctx: &VmContext, pc: usize, regs: Seq<u64>, opcode: u8) -> (
    InstructionResult,
    Seq<u64>,
) {
    let (r_a, r_b, r_d) = three_regs_operands(ctx, pc);
    match three_reg_value(opcode, regs[r_a], regs[r_b], regs[r_d]) {
        Some(v) => (InstructionResult::Continue, regs.update(r_d, v)),
        None => (InstructionResult::Panic, regs),
    }
}

fn get_three_registers_params(vm: &Vm) -> (r: (u64, u64, usize))
    requires
        decodable(&*vm.context, vm.state.pc),
    ensures
        r.2 < 13,
        ({
            let (r_a, r_b, r_d) = three_regs_operands(&*vm.context, vm.state.pc);
            r == (vm.state.registers@[r_a], vm.state.registers@[r_b], r_d as usize) && r.2 == r_d
        }),
{
    let pc = vm.state.pc;
    let byte1 = byte_of_code(&vm.context, pc + 1);
    let byte2 = byte_of_code(&vm.context, pc + 2);
    let r_a = low_reg(byte1);
    let r_b = high_reg(byte1);
    let r_d = clamp_reg(byte2);
    (vm.state.registers.get(r_a), vm.state.registers.get(r_b), r_d)
}

/// Arithmetic, logic, comparison and conditional moves on three registers.
pub fn dispatch_three_registers(opcode: u8, vm: &mut Vm) -> (r: InstructionResult)
    requires
        old(vm).wf(),
        decodable(&*old(vm).context, old(vm).state.pc),
    ensures
        (r, final(vm).state.registers@) == three_regs_effect(
            &*old(vm).context,
            old(vm).state.pc,
            old(vm).state.registers@,
            opcode,
        ),
        final(vm).memory == old(vm).memory,
        old(vm).same_but_data(final(vm)),
{
    let (w_a, w_b, r_d) = get_three_registers_params(vm);
    let w_d = vm.state.registers.get(r_d);
    match three_reg_alu(opcode, w_a, w_b, w_d) {
        Some(v) => {
            vm.state.registers.set(r_d, v);
            InstructionResult::Continue
        },
        None => InstructionResult::Panic,
    }
}

/// Registers and immediate of the two-registers-one-immediate shape.
pub open spec fn two_regs_imm_operands(ctx: &VmContext, pc: usize) -> (int, int, u64) {
    let b1 = code_byte(ctx, pc + 1);
    (reg_lo(b1), reg_hi(b1), imm_at(ctx, pc + 2, min4(sat(skip_at(ctx, pc) - 1))))
}

/// Address `regs[r_b] + v_x` used by the indirect loads and stores.
pub open spec fn indirect_address(regs: Seq<u64>, r_b: int, v_x: u64) -> usize {
    regs[r_b].wrapping_add(v_x) as usize
}

pub open spec fn two_regs_imm_effect(vm: &Vm, opcode: u8) -> (InstructionResult, Seq<u64>) {
    let (r_a, r_b, v_x) = two_regs_imm_operands(&*vm.context, vm.state.pc);
    let regs = vm.state.registers@;
    let addr = indirect_address(regs, r_b, v_x);
    if STORE_IND_U8 <= opcode <= STORE_IND_U64 {
        match store_width(opcode) {
            Some(w) => (store_effect(&vm.memory, addr, regs[r_a], w), regs),
            None => (InstructionResult::Panic, regs),
        }
    } else if LOAD_IND_U8 <= opcode <= LOAD_IND_U64 {
        match load_kind(opcode) {
            Some((w, signed)) => load_effect(&vm.memory, addr, w, signed, regs, r_a),
            None => (InstructionResult::Panic, regs),
        }
    } else {
        match two_reg_imm_value(opcode, regs[r_a], regs[r_b], v_x) {
            Some(v) => (InstructionResult::Continue, regs.update(r_a, v)),
            None => (InstructionResult::Panic, regs),
        }
    }
}

/// Memory bytes after a two-registers-one-immediate instruction.
pub open spec fn two_regs_imm_bytes(vm: &Vm, opcode: u8) -> Seq<u8> {
    let (r_a, r_b, v_x) = two_regs_imm_operands(&*vm.context, vm.state.pc);
    let regs = vm.state.registers@;
    if STORE_IND_U8 <= opcode <= STORE_IND_U64 {
        match store_width(opcode) {
            Some(w) => stored_bytes(&vm.memory, indirect_address(regs, r_b, v_x), regs[r_a], w),
            None => vm.memory.bytes(),
        }
    } else {
        vm.memory.bytes()
    }
}

fn get_two_registers_one_immediate_params(vm: &Vm) -> (r: (usize, usize, u64))
    requires
        decodable(&*vm.context, vm.state.pc),
    ensures
        r.0 < 13,
        r.1 < 13,
        (r.0 as int, r.1 as int, r.2) == two_regs_imm_operands(&*vm.context, vm.state.pc),
{
    let pc = vm.state.pc;
    let byte1 = byte_of_code(&vm.context, pc + 1);
    let r_a = low_reg(byte1);
    let r_b = high_reg(byte1);
    let l_x = min4_exec(skip_of(&vm.context, pc).saturating_sub(1));
    let v_x = imm_of(&vm.context, pc + 2, l_x);
    (r_a, r_b, v_x)
}

/// Indirect loads and stores, and arithmetic with an immediate.
pub fn dispatch_two_registers_one_immediate(opcode: u8, vm: &mut Vm) -> (r: InstructionResult)
    requires
        old(vm).wf(),
        decodable(&*old(vm).context, old(vm).state.pc),
    ensures
        (r, final(vm).state.registers@) == two_regs_imm_effect(old(vm), opcode),
        final(vm).wf(),
        final(vm).memory.bytes() == two_regs_imm_bytes(old(vm), opcode),
        final(vm).memory.access@ == old(vm).memory.access@,
        final(vm).memory.current_heap_pointer == old(vm).memory.current_heap_pointer,
        final(vm).memory.max_heap_pointer == old(vm).memory.max_heap_pointer,
        old(vm).same_but_data(final(vm)),
{
    let (r_a, r_b, v_x) = get_two_registers_one_immediate_params(vm);
    let w_a = vm.state.registers.get(r_a);
    let w_b = vm.state.registers.get(r_b);
    let addr = w_b.wrapping_add(v_x) as usize;
    if STORE_IND_U8 <= opcode && opcode <= STORE_IND_U64 {
        match store_width_of(opcode) {
            Some(w) => vm.store_value(addr, w_a, w),
            None => InstructionResult::Panic,
        }
    } else if LOAD_IND_U8 <= opcode && opcode <= LOAD_IND_U64 {
        match load_kind_of(opcode) {
            Some((w, signed)) => vm.load_register(addr, w, signed, r_a),
            None => InstructionResult::Panic,
        }
    } else {
        match two_reg_imm_alu(opcode, w_a, w_b, v_x) {
            Some(v) => {
                vm.state.registers.set(r_a, v);
                InstructionResult::Continue
            },
            None => InstructionResult::Panic,
        }
    }
}

/// Register and immediate of the register-immediate shape.
pub open spec fn reg_imm_operands(ctx: &VmContext, pc: usize) -> (int, u64) {
    let b1 = code_byte(ctx, pc + 1);
    (reg_lo(b1), imm_at(ctx, pc + 2, min4(sat(skip_at(ctx, pc) - 1))))
}

/// Destination of `JUMP_IND`/`LOAD_IMM_JUMP_IND`: `base + offset` modulo 2^32.
pub open spec fn djump_address(base: u64, offset: u64) -> usize {
    (base.wrapping_add(offset) & 0xFFFF_FFFFu64) as usize
}

pub open spec fn reg_imm_effect(vm: &Vm, opcode: u8) -> (InstructionResult, Seq<u64>) {
    let ctx = &*vm.context;
    let pc = vm.state.pc;
    let (r_a, v_x) = reg_imm_operands(ctx, pc);
    let regs = vm.state.registers@;
    if opcode == LOAD_IMM_64 {
        (InstructionResult::Continue, regs.update(r_a, raw_at(ctx, pc + 2, 8)))
    } else if opcode == JUMP_IND {
        (ctx.djump_spec(djump_address(regs[r_a], v_x)), regs)
    } else if opcode == LOAD_IMM {
        (InstructionResult::Continue, regs.update(r_a, v_x))
    } else if LOAD_U8 <= opcode <= LOAD_U64 {
        match load_kind(opcode) {
            Some((w, signed)) => load_effect(&vm.memory, v_x as usize, w, signed, regs, r_a),
            None => (InstructionResult::Panic, regs),
        }
    } else if STORE_U8 <= opcode <= STORE_U64 {
        match store_width(opcode) {
            Some(w) => (store_effect(&vm.memory, v_x as usize, regs[r_a], w), regs),
            None => (InstructionResult::Panic, regs),
        }
    } else {
        (InstructionResult::Panic, regs)
    }
}

/// Memory bytes after a register-immediate instruction.
pub open spec fn reg_imm_bytes(vm: &Vm, opcode: u8) -> Seq<u8> {
    let (r_a, v_x) = reg_imm_operands(&*vm.context, vm.state.pc);
    if STORE_U8 <= opcode <= STORE_U64 {
        match store_width(opcode) {
            Some(w) => stored_bytes(&vm.memory, v_x as usize, vm.state.registers@[r_a], w),
            None => vm.memory.bytes(),
        }
    } else {
        vm.memory.bytes()
    }
}

fn get_reg_immediate_params(context: &VmContext, pc: usize) -> (r: (usize, u64))
    requires
        decodable(context, pc),
    ensures
        r.0 < 13,
        (r.0 as int, r.1) == reg_imm_operands(context, pc),
{
    let register_index = low_reg(byte_of_code(context, pc + 1));
    let l_x = min4_exec(skip_of(context, pc).saturating_sub(1));
    (register_index, imm_of(context, pc + 2, l_x))
}

/// Immediate loads, direct loads and stores, and `JUMP_IND`.
pub fn dispatch_reg_immediate(opcode: u8, vm: &mut Vm) -> (r: InstructionResult)
    requires
        old(vm).wf(),
        decodable(&*old(vm).context, old(vm).state.pc),
    ensures
        (r, final(vm).state.registers@) == reg_imm_effect(old(vm), opcode),
        final(vm).wf(),
        final(vm).memory.bytes() == reg_imm_bytes(old(vm), opcode),
        final(vm).memory.access@ == old(vm).memory.access@,
        final(vm).memory.current_heap_pointer == old(vm).memory.current_heap_pointer,
        final(vm).memory.max_heap_pointer == old(vm).memory.max_heap_pointer,
        old(vm).same_but_data(final(vm)),
{
    let pc = vm.state.pc;
    if opcode == LOAD_IMM_64 {
        let register_index = low_reg(byte_of_code(&vm.context, pc + 1));
        let value = raw_of(&vm.context, pc + 2, 8);
        vm.state.registers.set(register_index, value);
        return InstructionResult::Continue;
    }
    let (register_index, value) = get_reg_immediate_params(&vm.context, pc);
    if opcode == JUMP_IND {
        let register_value = vm.state.registers.get(register_index);
        let target = (register_value.wrapping_add(value) & 0xFFFF_FFFF) as usize;
        vm.context.djump(target)
    } else if opcode == LOAD_IMM {
        vm.state.registers.set(register_index, value);
        InstructionResult::Continue
    } else if LOAD_U8 <= opcode && opcode <= LOAD_U64 {
        match load_kind_of(opcode) {
            Some((w, signed)) => vm.load_register(value as usize, w, signed, register_index),
            None => InstructionResult::Panic,
        }
    } else if STORE_U8 <= opcode && opcode <= STORE_U64 {
        let stored = vm.state.registers.get(register_index);
        match store_width_of(opcode) {
            Some(w) => vm.store_value(value as usize, stored, w),
            None => InstructionResult::Panic,
        }
    } else {
        InstructionResult::Panic
    }
}

/// Address and value of the two-immediates shape.
pub open spec fn two_imm_operands(ctx: &VmContext, pc: usize) -> (u64, u64) {
    let l_x = min4((code_byte(ctx, pc + 1) % 8) as int);
    let l_y = min4(sat(skip_at(ctx, pc) - l_x - 1));
    (imm_at(ctx, pc + 2, l_x), imm_at(ctx, pc + 2 + l_x, l_y))
}

fn get_two_immediates_params(vm: &Vm) -> (r: (u64, u64))
    requires
        decodable(&*vm.context, vm.state.pc),
    ensures
        r == two_imm_operands(&*vm.context, vm.state.pc),
{
    let pc = vm.state.pc;
    let first_byte = byte_of_code(&vm.context, pc + 1);
    let l_x = min4_exec((first_byte % 8) as usize);
    let l = skip_of(&vm.context, pc);
    let l_y = min4_exec(l.saturating_sub(l_x).saturating_sub(1));
    let v_x = imm_of(&vm.context, pc + 2, l_x);
    let v_y = imm_of(&vm.context, pc + 2 + l_x, l_y);
    (v_x, v_y)
}

pub open spec fn two_imm_effect(vm: &Vm, opcode: u8) -> InstructionResult {
    let (v_x, v_y) = two_imm_operands(&*vm.context, vm.state.pc);
    if STORE_IMM_U8 <= opcode <= STORE_IMM_U64 {
        store_effect(&vm.memory, v_x as usize, v_y, store_width(opcode)->Some_0)
    } else {
        InstructionResult::Panic
    }
}

/// Memory bytes after a two-immediates instruction.
pub open spec fn two_imm_bytes(vm: &Vm, opcode: u8) -> Seq<u8> {
    let (v_x, v_y) = two_imm_operands(&*vm.context, vm.state.pc);
    if STORE_IMM_U8 <= opcode <= STORE_IMM_U64 {
        stored_bytes(&vm.memory, v_x as usize, v_y, store_width(opcode)->Some_0)
    } else {
        vm.memory.bytes()
    }
}

/// Stores of an immediate value at an immediate address.
pub fn dispatch_two_immediates(opcode: u8, vm: &mut Vm) -> (r: InstructionResult)
    requires
        old(vm).wf(),
        decodable(&*old(vm).context, old(vm).state.pc),
    ensures
        r == two_imm_effect(old(vm), opcode),
        final(vm).memory.bytes() == two_imm_bytes(old(vm), opcode),
        final(vm).wf(),
        final(vm).state == old(vm).state,
        final(vm).memory.access@ == old(vm).memory.access@,
        final(vm).memory.current_heap_pointer == old(vm).memory.current_heap_pointer,
        final(vm).memory.max_heap_pointer == old(vm).memory.max_heap_pointer,
        old(vm).same_but_data(final(vm)),
{
    let (v_x, v_y) = get_two_immediates_params(vm);
    if STORE_IMM_U8 <= opcode && opcode <= STORE_IMM_U64 {
        match store_width_of(opcode) {
            Some(w) => vm.store_value(v_x as usize, v_y, w),
            None => InstructionResult::Panic,
        }
    } else {
        InstructionResult::Panic
    }
}

/// Address (`regs[r_a] + v_x`) and value of the register-two-immediates shape.
pub open spec fn reg_two_imm_operands(ctx: &VmContext, pc: usize, regs: Seq<u64>) -> (usize, u64) {
    let b1 = code_byte(ctx, pc + 1);
    let l_x = min4(((b1 / 16) % 8) as int);
    let l_y = min4(sat(skip_at(ctx, pc) - l_x - 1));
    (regs[reg_lo(b1)].wrapping_add(imm_at(ctx, pc + 2, l_x)) as usize, imm_at(ctx, pc + 2 + l_x, l_y))
}

fn get_reg_two_imm_params(context: &VmContext, state: &VmState, pc: usize) -> (r: (usize, u64))
    requires
        decodable(context, pc),
        state.pc == pc,
    ensures
        r == reg_two_imm_operands(context, pc, state.registers@),
{
    let b1 = byte_of_code(context, pc + 1);
    let register_index = low_reg(b1);
    let l_x = min4_exec(((b1 / 16) % 8) as usize);
    let l_y = min4_exec(skip_of(context, pc).saturating_sub(l_x).saturating_sub(1));
    let v_x = imm_of(context, pc + 2, l_x);
    let v_y = imm_of(context, pc + 2 + l_x, l_y);
    let w_a = state.registers.get(register_index);
    (w_a.wrapping_add(v_x) as usize, v_y)
}

pub open spec fn reg_two_imm_effect(vm: &Vm, opcode: u8) -> InstructionResult {
    let (addr, v_y) = reg_two_imm_operands(&*vm.context, vm.state.pc, vm.state.registers@);
    if STORE_IMM_IND_U8 <= opcode <= STORE_IMM_IND_U64 {
        store_effect(&vm.memory, addr, v_y, store_width(opcode)->Some_0)
    } else {
        InstructionResult::Panic
    }
}

/// Memory bytes after a register-two-immediates instruction.
pub open spec fn reg_two_imm_bytes(vm: &Vm, opcode: u8) -> Seq<u8> {
    let (addr, v_y) = reg_two_imm_operands(&*vm.context, vm.state.pc, vm.state.registers@);
    if STORE_IMM_IND_U8 <= opcode <= STORE_IMM_IND_U64 {
        stored_bytes(&vm.memory, addr, v_y, store_width(opcode)->Some_0)
    } else {
        vm.memory.bytes()
    }
}

/// Stores of an immediate value at a register-relative address.
pub fn dispatch_reg_two_imm(opcode: u8, vm: &mut Vm) -> (r: InstructionResult)
    requires
        old(vm).wf(),
        decodable(&*old(vm).context, old(vm).state.pc),
    ensures
        r == reg_two_imm_effect(old(vm), opcode),
        final(vm).memory.bytes() == reg_two_imm_bytes(old(vm), opcode),
        final(vm).wf(),
        final(vm).state == old(vm).state,
        final(vm).memory.access@ == old(vm).memory.access@,
        final(vm).memory.current_heap_pointer == old(vm).memory.current_heap_pointer,
        final(vm).memory.max_heap_pointer == old(vm).memory.max_heap_pointer,
        old(vm).same_but_data(final(vm)),
{
    let (target_addr, v_y) = get_reg_two_imm_params(&vm.context, &vm.state, vm.state.pc);
    if STORE_IMM_IND_U8 <= opcode && opcode <= STORE_IMM_IND_U64 {
        match store_width_of(opcode) {
            Some(w) => vm.store_value(target_addr, v_y, w),
            None => InstructionResult::Panic,
        }
    } else {
        InstructionResult::Panic
    }
}

/// Registers and immediates of the two-registers-two-immediates shape.
pub open spec fn two_regs_two_imm_operands(ctx: &VmContext, pc: usize) -> (int, int, u64, u64) {
    let b1 = code_byte(ctx, pc + 1);
    let l_x = min4((code_byte(ctx, pc + 2) % 8) as int);
    let l_y = min4(sat(skip_at(ctx, pc) - l_x - 2));
    (reg_lo(b1), reg_hi(b1), imm_at(ctx, pc + 3, l_x), imm_at(ctx, pc + 3 + l_x, l_y))
}

pub open spec fn two_regs_two_imm_effect(ctx: &VmContext, pc: usize, regs: Seq<u64>, opcode: u8) -> (
    InstructionResult,
    Seq<u64>,
) {
    let (r_a, r_b, v_x, v_y) = two_regs_two_imm_operands(ctx, pc);
    if opcode == LOAD_IMM_JUMP_IND {
        (ctx.djump_spec(djump_address(regs[r_b], v_y)), regs.update(r_a, v_x))
    } else {
        (InstructionResult::Panic, regs)
    }
}

fn get_two_registers_two_immediates_params(vm: &Vm) -> (r: (usize, usize, u64, u64))
    requires
        decodable(&*vm.context, vm.state.pc),
    ensures
        r.0 < 13,
        r.1 < 13,
        (r.0 as int, r.1 as int, r.2, r.3) == two_regs_two_imm_operands(&*vm.context, vm.state.pc),
{
    let pc = vm.state.pc;
    let byte1 = byte_of_code(&vm.context, pc + 1);
    let r_a = low_reg(byte1);
    let r_b = high_reg(byte1);
    let byte2 = byte_of_code(&vm.context, pc + 2);
    let l_x = min4_exec((byte2 % 8) as usize);
    let l = skip_of(&vm.context, pc);
    let l_y = min4_exec(l.saturating_sub(l_x).saturating_sub(2));
    let v_x = imm_of(&vm.context, pc + 3, l_x);
    let v_y = imm_of(&vm.context, pc + 3 + l_x, l_y);
    (r_a, r_b, v_x, v_y)
}

/// `LOAD_IMM_JUMP_IND`: loads an immediate and jumps through the jump table.
pub fn dispatch_two_registers_two_immediates(opcode: u8, vm: &mut Vm) -> (r: InstructionResult)
    requires
        old(vm).wf(),
        decodable(&*old(vm).context, old(vm).state.pc),
    ensures
        (r, final(vm).state.registers@) == two_regs_two_imm_effect(
            &*old(vm).context,
            old(vm).state.pc,
            old(vm).state.registers@,
            opcode,
        ),
        final(vm).memory == old(vm).memory,
        old(vm).same_but_data(final(vm)),
{
    let (r_a, r_b, v_x, v_y) = get_two_registers_two_immediates_params(vm);
    if opcode == LOAD_IMM_JUMP_IND {
        let w_b = vm.state.registers.get(r_b);
        let jump_addr = w_b.wrapping_add(v_y) & 0xFFFF_FFFF;
        vm.state.registers.set(r_a, v_x);
        vm.context.djump(jump_addr as usize)
    } else {
        InstructionResult::Panic
    }
}

/// Source value and destination register of the two-registers shape.
pub open spec fn two_regs_operands(ctx: &VmContext, pc: usize) -> (int, int) {
    let b = code_byte(ctx, pc + 1);
    (reg_hi(b), reg_lo(b))
}

/// Whether growing the heap by `size` stays within its maximum.
pub open spec fn sbrk_fits(m: &Memory, size: u64) -> bool {
    m.current_heap_pointer + (size as usize) <= m.max_heap_pointer
}

/// Memory after `SBRK` by `size`: on growth the heap pointer advances and every
/// page of the new range becomes read-write; nothing else changes.
pub open spec fn sbrk_memory(before: &Memory, after: &Memory, size: u64) -> bool {
    &&& after.bytes() == before.bytes()
    &&& after.max_heap_pointer == before.max_heap_pointer
    &&& after.access@.len() == before.access@.len()
    &&& if size != 0 && sbrk_fits(before, size) {
        &&& after.current_heap_pointer == before.current_heap_pointer + (size as usize)
        &&& forall|page: int|
            0 <= page < 32 * before.access@.len() ==> #[trigger] after.perm(page) == if before.current_heap_pointer
                / 0x1000 <= page < pages_end(before.current_heap_pointer as int, (size as usize) as int) {
                3
            } else {
                before.perm(page)
            }
    } else {
        &&& after.current_heap_pointer == before.current_heap_pointer
        &&& after.access@ == before.access@
    }
}

/// Value `SBRK` by `size` writes: the old heap pointer, or 0 when the heap cannot grow.
pub open spec fn sbrk_value(m: &Memory, size: u64) -> u64 {
    if size == 0 || sbrk_fits(m, size) {
        m.current_heap_pointer as u64
    } else {
        0
    }
}

pub open spec fn two_regs_effect(vm: &Vm, opcode: u8) -> (InstructionResult, Seq<u64>) {
    let (r_a, r_d) = two_regs_operands(&*vm.context, vm.state.pc);
    let regs = vm.state.registers@;
    if opcode == SBRK {
        (InstructionResult::Continue, regs.update(r_d, sbrk_value(&vm.memory, regs[r_a])))
    } else {
        match two_reg_value(opcode, regs[r_a]) {
            Some(v) => (InstructionResult::Continue, regs.update(r_d, v)),
            None => (InstructionResult::Panic, regs),
        }
    }
}

proof fn lemma_full_perm(w: u64, off: u64)
    ensures
        ((w >> off) & 3u64) & 3u64 == 3u64 ==> (w >> off) & 3u64 == 3u64,
{
    assert(((w >> off) & 3u64) & 3u64 == 3u64 ==> (w >> off) & 3u64 == 3u64) by (bit_vector);
}

/// `SBRK`: with size 0 reports the heap pointer; otherwise grows the heap when
/// it stays within its maximum, making the new range read-write.
fn handle_sbrk(size: u64, r_d: usize, vm: &mut Vm) -> (r: InstructionResult)
    requires
        old(vm).wf(),
        r_d < 13,
    ensures
        r == InstructionResult::Continue,
        final(vm).state.registers@ == old(vm).state.registers@.update(r_d as int, sbrk_value(&old(vm).memory, size)),
        sbrk_memory(&old(vm).memory, &final(vm).memory, size),
        final(vm).wf(),
        old(vm).same_but_data(final(vm)),
{
    let current = vm.memory.current_heap_pointer;
    if size == 0 {
        vm.state.registers.set(r_d, current as u64);
        return InstructionResult::Continue;
    }
    let size_bytes = size as usize;
    let max = vm.memory.max_heap_pointer;
    if size_bytes > max || current > max - size_bytes {
        vm.state.registers.set(r_d, 0);
        return InstructionResult::Continue;
    }
    let ghost before = vm.memory;
    if !vm.memory.check_access(current, size_bytes, Permission::ReadWrite) {
        vm.memory.set_access(current, size_bytes, Permission::ReadWrite);
    } else {
        assert forall|page: int|
            0 <= page < 32 * before.access@.len() implies #[trigger] before.perm(page) == if current
                / 0x1000 <= page < pages_end(current as int, size_bytes as int) {
                3
            } else {
                before.perm(page)
            } by {
            if current / 0x1000 <= page < pages_end(current as int, size_bytes as int) {
                assert(before.perm(page) & 3u64 == 3u64);
                lemma_full_perm(before.access@[page / 32], ((page % 32) * 2) as u64);
            }
        }
    }
    let ghost mid = vm.memory;
    vm.memory.current_heap_pointer = current + size_bytes;
    vm.state.registers.set(r_d, current as u64);
    proof {
        assert forall|page: int|
            0 <= page < 32 * before.access@.len() implies #[trigger] vm.memory.perm(page) == if current
                / 0x1000 <= page < pages_end(current as int, size_bytes as int) {
                3
            } else {
                before.perm(page)
            } by {
            assert(vm.memory.perm(page) == mid.perm(page));
        }
    }
    InstructionResult::Continue
}

fn get_two_registers_params(vm: &Vm) -> (r: (u64, usize))
    requires
        decodable(&*vm.context, vm.state.pc),
    ensures
        r.1 < 13,
        ({
            let (r_a, r_d) = two_regs_operands(&*vm.context, vm.state.pc);
            r == (vm.state.registers@[r_a], r_d as usize) && r.1 == r_d
        }),
{
    let byte = byte_of_code(&vm.context, vm.state.pc + 1);
    let r_a = high_reg(byte);
    let r_d = low_reg(byte);
    (vm.state.registers.get(r_a), r_d)
}

/// Register moves, bit counts, extensions, byte reversal and `SBRK`.
pub fn dispatch_two_registers(opcode: u8, vm: &mut Vm) -> (r: InstructionResult)
    requires
        old(vm).wf(),
        decodable(&*old(vm).context, old(vm).state.pc),
    ensures
        (r, final(vm).state.registers@) == two_regs_effect(old(vm), opcode),
        final(vm).wf(),
        opcode == SBRK ==> sbrk_memory(
            &old(vm).memory,
            &final(vm).memory,
            old(vm).state.registers@[two_regs_operands(&*old(vm).context, old(vm).state.pc).0],
        ),
        opcode != SBRK ==> final(vm).memory == old(vm).memory,
        old(vm).same_but_data(final(vm)),
{
    let (w_a, r_d) = get_two_registers_params(vm);
    if opcode == SBRK {
        handle_sbrk(w_a, r_d, vm)
    } else {
        match two_reg_alu(opcode, w_a) {
            Some(v) => {
                vm.state.registers.set(r_d, v);
                InstructionResult::Continue
            },
            None => InstructionResult::Panic,
        }
    }
}

} // verus!
