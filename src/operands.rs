//! How each operand shape is recovered from the code bytes that follow an opcode.
use vstd::prelude::*;

use crate::types::VmContext;
use crate::utils::{decode_and_extend, decode_bytes, le_value, sign_extend_spec};

verus! {

pub open spec fn min4(x: int) -> int {
    if x < 4 {
        x
    } else {
        4
    }
}

/// `x` floored at zero.
pub open spec fn sat(x: int) -> int {
    if x < 0 {
        0
    } else {
        x
    }
}

/// Register index in the low nibble of `b`, clamped to 12.
pub open spec fn reg_lo(b: u8) -> int {
    if b % 16 < 12 {
        (b % 16) as int
    } else {
        12
    }
}

/// Register index in the high nibble of `b`, clamped to 12.
pub open spec fn reg_hi(b: u8) -> int {
    if b / 16 < 12 {
        (b / 16) as int
    } else {
        12
    }
}

/// Code byte `i`.
pub open spec fn code_byte(ctx: &VmContext, i: int) -> u8 {
    ctx.program.byte(i)
}

/// The `l` code bytes from `start`, read unsigned and least significant first.
pub open spec fn raw_at(ctx: &VmContext, start: int, l: int) -> u64 {
    le_value(ctx.program.program@.subrange(start, start + l)) as u64
}

/// The `l` code bytes from `start`, sign-extended.
pub open spec fn imm_at(ctx: &VmContext, start: int, l: int) -> u64 {
    sign_extend_spec(raw_at(ctx, start, l), l as nat)
}

/// `skip` of the instruction at `pc`.
pub open spec fn skip_at(ctx: &VmContext, pc: usize) -> int {
    ctx.bitmask.skip_spec(pc as int) as int
}

/// Code position reached from `pc` by the signed offset word `off`.
pub open spec fn target_of(pc: usize, off: u64) -> usize {
    ((pc as int + off as int) % 0x1_0000_0000_0000_0000) as u64 as usize
}

/// Whether the instruction at `pc` can be decoded: the context is well formed
/// and `pc` lies inside the code, so every operand byte lies inside the padded buffer.
pub open spec fn decodable(ctx: &VmContext, pc: usize) -> bool {
    ctx.wf() && pc < ctx.program.size
}

pub fn clamp_reg(x: u8) -> (r: usize)
    ensures
        r == if x < 12 { x as int } else { 12 },
{
    if x < 12 {
        x as usize
    } else {
        12
    }
}

pub fn low_reg(b: u8) -> (r: usize)
    ensures
        r == reg_lo(b),
        r < 13,
{
    clamp_reg(b % 16)
}

pub fn high_reg(b: u8) -> (r: usize)
    ensures
        r == reg_hi(b),
        r < 13,
{
    clamp_reg(b / 16)
}

pub fn min4_exec(x: usize) -> (r: usize)
    ensures
        r == min4(x as int),
{
    if x < 4 {
        x
    } else {
        4
    }
}

/// `pc` moved by the signed offset word `off`, wrapping.
pub fn relative_target(pc: usize, off: u64) -> (r: usize)
    ensures
        r == target_of(pc, off),
{
    (pc as u64).wrapping_add(off) as usize
}

pub fn skip_of(ctx: &VmContext, pc: usize) -> (r: usize)
    requires
        decodable(ctx, pc),
    ensures
        r == skip_at(ctx, pc),
        r <= 24,
{
    ctx.bitmask.skip(pc)
}

pub fn byte_of_code(ctx: &VmContext, i: usize) -> (r: u8)
    requires
        ctx.wf(),
        i < ctx.program.size + 32,
    ensures
        r == code_byte(ctx, i as int),
{
    ctx.program.at(i)
}

pub fn imm_of(ctx: &VmContext, start: usize, l: usize) -> (r: u64)
    requires
        ctx.wf(),
        l <= 8,
        start + l <= ctx.program.size + 32,
    ensures
        r == imm_at(ctx, start as int, l as int),
{
    decode_and_extend(&ctx.program, start, l)
}

pub fn raw_of(ctx: &VmContext, start: usize, l: usize) -> (r: u64)
    requires
        ctx.wf(),
        l <= 8,
        start + l <= ctx.program.size + 32,
    ensures
        r == raw_at(ctx, start as int, l as int),
{
    decode_bytes(&ctx.program, start, l)
}

} // verus!
