//! The operand shape of each opcode.
use vstd::prelude::*;

use crate::opcodes::{
    ADD_32,
    BRANCH_EQ,
    BRANCH_GE_S,
    BRANCH_GT_S_IMM,
    ECALLI,
    FALLTHROUGH,
    JUMP,
    JUMP_IND,
    LOAD_IMM_64,
    LOAD_IMM_JUMP,
    LOAD_IMM_JUMP_IND,
    MIN_U,
    MOVE_REG,
    REVERSE_BYTES,
    ROT_R_32_IMM_ALT,
    STORE_IMM_IND_U64,
    STORE_IMM_IND_U8,
    STORE_IMM_U64,
    STORE_IMM_U8,
    STORE_IND_U8,
    STORE_U64,
    TRAP,
};

verus! {

#[derive(Debug, Clone, Copy, PartialEq, Eq, Structural)]
pub enum InstructionCategory {
    NoArgs,
    OneImmediate,
    TwoImmediates,
    RegImmediate,
    RegTwoImm,
    RegImmediateOffset,
    TwoRegisters,
    TwoRegistersOneImmediate,
    TwoRegistersOneOffset,
    TwoRegistersTwoImmediates,
    ThreeRegisters,
    Unknown,
}

pub open spec fn category_of(opcode: u8) -> InstructionCategory {
    if opcode == TRAP || opcode == FALLTHROUGH {
        InstructionCategory::NoArgs
    } else if opcode == ECALLI || opcode == JUMP {
        InstructionCategory::OneImmediate
    } else if STORE_IMM_U8 <= opcode <= STORE_IMM_U64 {
        InstructionCategory::TwoImmediates
    } else if opcode == LOAD_IMM_64 || (JUMP_IND <= opcode <= STORE_U64) {
        InstructionCategory::RegImmediate
    } else if STORE_IMM_IND_U8 <= opcode <= STORE_IMM_IND_U64 {
        InstructionCategory::RegTwoImm
    } else if LOAD_IMM_JUMP <= opcode <= BRANCH_GT_S_IMM {
        InstructionCategory::RegImmediateOffset
    } else if MOVE_REG <= opcode <= REVERSE_BYTES {
        InstructionCategory::TwoRegisters
    } else if STORE_IND_U8 <= opcode <= ROT_R_32_IMM_ALT {
        InstructionCategory::TwoRegistersOneImmediate
    } else if BRANCH_EQ <= opcode <= BRANCH_GE_S {
        InstructionCategory::TwoRegistersOneOffset
    } else if opcode == LOAD_IMM_JUMP_IND {
        InstructionCategory::TwoRegistersTwoImmediates
    } else if ADD_32 <= opcode <= MIN_U {
        InstructionCategory::ThreeRegisters
    } else {
        InstructionCategory::Unknown
    }
}

pub fn get_category(opcode: u8) -> (r: InstructionCategory)
    ensures
        r == category_of(opcode),
{
    if opcode == TRAP || opcode == FALLTHROUGH {
        InstructionCategory::NoArgs
    } else if opcode == ECALLI || opcode == JUMP {
        InstructionCategory::OneImmediate
    } else if STORE_IMM_U8 <= opcode && opcode <= STORE_IMM_U64 {
        InstructionCategory::TwoImmediates
    } else if opcode == LOAD_IMM_64 || (JUMP_IND <= opcode && opcode <= STORE_U64) {
        InstructionCategory::RegImmediate
    } else if STORE_IMM_IND_U8 <= opcode && opcode <= STORE_IMM_IND_U64 {
        InstructionCategory::RegTwoImm
    } else if LOAD_IMM_JUMP <= opcode && opcode <= BRANCH_GT_S_IMM {
        InstructionCategory::RegImmediateOffset
    } else if MOVE_REG <= opcode && opcode <= REVERSE_BYTES {
        InstructionCategory::TwoRegisters
    } else if STORE_IND_U8 <= opcode && opcode <= ROT_R_32_IMM_ALT {
        InstructionCategory::TwoRegistersOneImmediate
    } else if BRANCH_EQ <= opcode && opcode <= BRANCH_GE_S {
        InstructionCategory::TwoRegistersOneOffset
    } else if opcode == LOAD_IMM_JUMP_IND {
        InstructionCategory::TwoRegistersTwoImmediates
    } else if ADD_32 <= opcode && opcode <= MIN_U {
        InstructionCategory::ThreeRegisters
    } else {
        InstructionCategory::Unknown
    }
}

} // verus!
