//! Facts about the machine as a whole, proved from the contracts of its parts.
use vstd::prelude::*;

use crate::alu::{ext32, lemma_ext32_is_extension};
use crate::bitmask::BitMask;
use crate::category::{category_of, InstructionCategory};
use crate::dispatch::one_imm_len;
use crate::opcodes::ECALLI;
use crate::operands::{code_byte, decodable, raw_at, skip_at};
use crate::run::{continues, continuing_trace, instruction_effect, next_pc, step_post};
use crate::semantics::{is_32bit_op, three_reg_value, two_reg_imm_value};
use crate::start_set::{ends_block, is_block_start, lemma_walk_grows, next_pos, walk};
use crate::types::{InstructionResult, StepResult, VmContext};
use crate::utils::{lemma_pow256_values, sign_extend_spec};
use crate::vm::Vm;

verus! {

proof fn lemma_run_from_bounded(bm: &BitMask, i: int, fuel: nat)
    ensures
        bm.run_from(i, fuel) <= fuel,
    decreases fuel,
{
    if fuel > 0 {
        lemma_run_from_bounded(bm, i + 1, (fuel - 1) as nat);
    }
}

proof fn lemma_run_from_stops(bm: &BitMask, i: int, fuel: nat)
    ensures
        bm.run_from(i, fuel) < fuel ==> bm.is_set_at(i + bm.run_from(i, fuel)),
    decreases fuel,
{
    if fuel > 0 && !bm.is_set_at(i) {
        lemma_run_from_stops(bm, i + 1, (fuel - 1) as nat);
    }
}

/// `skip` never exceeds 24, whatever the bitmask and position.
pub proof fn lemma_skip_at_most_24(bitmask: &BitMask, pc: int)
    ensures
        bitmask.skip_spec(pc) <= 24,
{
    lemma_run_from_bounded(bitmask, pc + 1, 24);
}

/// A taken branch, a jump and a dynamic jump land on a member of the start
/// set, or the instruction panics.
pub proof fn lemma_jumps_land_on_start_set(ctx: &VmContext, destination: usize, should_branch: bool)
    ensures
        ctx.branch_spec(destination, should_branch) matches InstructionResult::Jump(t) ==> t == destination
            && ctx.start_set.contains(t as int),
        should_branch ==> (ctx.branch_spec(destination, should_branch) is Jump || ctx.branch_spec(
            destination,
            should_branch,
        ) is Panic),
        ctx.djump_spec(destination) matches InstructionResult::Jump(t) ==> ctx.start_set.contains(t as int),
{
}

/// Whatever instruction runs, a jump it asks for lands in the start set.
pub proof fn lemma_instruction_jumps_land_on_start_set(vm: &Vm, opcode: u8)
    ensures
        instruction_effect(vm, opcode).0 matches InstructionResult::Jump(t) ==> vm.context.start_set.contains(
            t as int,
        ),
{
}

/// When an instruction continues (or calls the host) and its argument run is
/// shorter than the cap, the next `pc` is an instruction start; when it jumps,
/// the next `pc` is in the start set.
pub proof fn lemma_next_pc_is_start(vm: &Vm, opcode: u8)
    requires
        decodable(&*vm.context, vm.state.pc),
    ensures
        ({
            let ctx = &*vm.context;
            let pc = vm.state.pc;
            let ir = instruction_effect(vm, opcode).0;
            &&& ((ir is Continue || ir is Ecall) && skip_at(ctx, pc) < 24) ==> ctx.bitmask.is_set_at(
                next_pc(ctx, pc, ir) as int,
            )
            &&& ir is Jump ==> ctx.start_set.contains(next_pc(ctx, pc, ir) as int)
        }),
{
    let ctx = &*vm.context;
    let pc = vm.state.pc;
    lemma_run_from_stops(&ctx.bitmask, pc + 1, 24);
    lemma_instruction_jumps_land_on_start_set(vm, opcode);
}

proof fn lemma_max_is_extension()
    ensures
        sign_extend_spec(u64::MAX, 4) == u64::MAX,
{
    lemma_pow256_values();
}

/// Every 32-bit arithmetic result equals its own sign extension from 32 bits,
/// whatever the register values `w_a`, `w_b`, `w_d` and immediate `imm`.
pub proof fn lemma_32bit_results_sign_extended(op: u8, w_a: u64, w_b: u64, w_d: u64, imm: u64)
    requires
        is_32bit_op(op),
    ensures
        three_reg_value(op, w_a, w_b, w_d) matches Some(v) ==> v == sign_extend_spec(v, 4),
        two_reg_imm_value(op, w_a, w_b, imm) matches Some(v) ==> v == sign_extend_spec(v, 4),
{
    lemma_max_is_extension();
    if let Some(v) = three_reg_value(op, w_a, w_b, w_d) {
        if v != u64::MAX {
            let x = choose|x: u64| v == ext32(x);
            lemma_ext32_is_extension(x);
        }
    }
    if let Some(v) = two_reg_imm_value(op, w_a, w_b, imm) {
        let x = choose|x: u64| v == ext32(x);
        lemma_ext32_is_extension(x);
    }
}

/// A step that executes `ECALLI n` reports host call `n`, charges one unit
/// of gas, leaves registers and memory alone and moves `pc` past the
/// instruction, so a machine resumed from the state it leaves continues with
/// the next instruction.
pub proof fn lemma_ecall_round_trip(before: &Vm, after: &Vm, r: StepResult)
    requires
        decodable(&*before.context, before.state.pc),
        code_byte(&*before.context, before.state.pc as int) == ECALLI,
        step_post(before, after, r),
    ensures
        ({
            let ctx = &*before.context;
            let pc = before.state.pc;
            &&& r == StepResult::Ecall { call_id: raw_at(ctx, pc + 1, one_imm_len(ctx, pc)) }
            &&& after.state.pc == pc + 1 + skip_at(ctx, pc)
            &&& after.state.spent_gas == before.state.spent_gas + 1
            &&& after.state.registers@ == before.state.registers@
            &&& after.memory.bytes() == before.memory.bytes()
            &&& after.memory.access@ == before.memory.access@
            &&& after.memory.current_heap_pointer == before.memory.current_heap_pointer
        }),
{
    assert(category_of(ECALLI) == InstructionCategory::OneImmediate);
    lemma_skip_at_most_24(&before.context.bitmask, before.state.pc as int);
}

/// A program whose position 0 starts an instruction and whose instructions
/// all have argument runs shorter than the `skip` cap.
pub open spec fn valid_program(ctx: &VmContext) -> bool {
    &&& ctx.bitmask.is_set_at(0)
    &&& forall|p: int|
        0 <= p < ctx.program.size && #[trigger] ctx.bitmask.is_set_at(p) ==> ctx.bitmask.skip_spec(p) < 24
}

proof fn lemma_walk_on_starts(ctx: &VmContext, k: nat)
    requires
        valid_program(ctx),
        walk(&ctx.bitmask, k) < ctx.program.size,
    ensures
        ctx.bitmask.is_set_at(walk(&ctx.bitmask, k)),
    decreases k,
{
    if k > 0 {
        let prev = walk(&ctx.bitmask, (k - 1) as nat);
        lemma_walk_grows(&ctx.bitmask, (k - 1) as nat, k);
        lemma_walk_on_starts(ctx, (k - 1) as nat);
        lemma_run_from_stops(&ctx.bitmask, prev + 1, 24);
    }
}

/// In a valid program every member of the start set starts an instruction.
pub proof fn lemma_start_set_on_starts(ctx: &VmContext, t: int)
    requires
        valid_program(ctx),
        is_block_start(&ctx.program, &ctx.bitmask, t),
    ensures
        ctx.bitmask.is_set_at(t),
{
    if t != 0 {
        let k = choose|k: nat|
            #[trigger] ends_block(&ctx.program, &ctx.bitmask, k) && next_pos(&ctx.bitmask, walk(&ctx.bitmask, k)) == t;
        lemma_walk_on_starts(ctx, k);
        lemma_run_from_stops(&ctx.bitmask, walk(&ctx.bitmask, k) + 1, 24);
    }
}

/// In a valid program, an instruction executed at an instruction start hands
/// over to an instruction start whenever execution goes on (continue, host
/// call or jump), provided the start set is the one built from the code.
/// Together with `single_step_run`, which executes nothing at or past the code
/// length, every `pc` at which an instruction executes starts an instruction
/// and lies inside the code.
pub proof fn lemma_execution_stays_on_starts(vm: &Vm, opcode: u8)
    requires
        decodable(&*vm.context, vm.state.pc),
        valid_program(&*vm.context),
        vm.context.bitmask.is_set_at(vm.state.pc as int),
        forall|i: int|
            #[trigger] vm.context.start_set.contains(i) == is_block_start(&vm.context.program, &vm.context.bitmask, i),
    ensures
        ({
            let ctx = &*vm.context;
            let ir = instruction_effect(vm, opcode).0;
            (ir is Continue || ir is Ecall || ir is Jump) ==> ctx.bitmask.is_set_at(next_pc(ctx, vm.state.pc, ir) as int)
        }),
{
    let ctx = &*vm.context;
    let pc = vm.state.pc;
    let ir = instruction_effect(vm, opcode).0;
    lemma_next_pc_is_start(vm, opcode);
    if let InstructionResult::Jump(t) = ir {
        lemma_start_set_on_starts(ctx, t as int);
    }
}

/// Along a run of a valid program that starts on an instruction start, with
/// the start set built from the code, every state's `pc` starts an
/// instruction. A step executes an instruction only at a `pc` inside the code
/// (`step_post`), so every fetched `pc` is an instruction start inside the code.
pub proof fn lemma_run_stays_on_starts(trace: Seq<Vm>, i: int)
    requires
        continuing_trace(trace),
        0 <= i < trace.len(),
        valid_program(&*trace[0].context),
        forall|t: int|
            #[trigger] trace[0].context.start_set.contains(t) == is_block_start(
                &trace[0].context.program,
                &trace[0].context.bitmask,
                t,
            ),
        trace[0].context.bitmask.is_set_at(trace[0].state.pc as int),
    ensures
        trace[i].context == trace[0].context,
        trace[i].context.bitmask.is_set_at(trace[i].state.pc as int),
    decreases i,
{
    if i > 0 {
        lemma_run_stays_on_starts(trace, i - 1);
        let b = trace[i - 1];
        assert(continues(trace[i - 1], trace[(i - 1) + 1]));
        let opcode = code_byte(&*b.context, b.state.pc as int);
        lemma_execution_stays_on_starts(&b, opcode);
    }
}

/// Past the code every position starts an instruction, so `skip` there is 0.
pub proof fn lemma_skip_past_code(bitmask: &BitMask, pc: int)
    requires
        pc + 1 >= bitmask.limit,
    ensures
        bitmask.skip_spec(pc) == 0,
{
}

} // verus!
