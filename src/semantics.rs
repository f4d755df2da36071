//! What each instruction computes, by operand shape.
use vstd::prelude::*;
use vstd::std_specs::bits::{u64_leading_zeros, u64_trailing_zeros};

use crate::alu::{
    MASK_32,
    ashr64,
    ashr64_exec,
    bool_word,
    count_ones,
    div_s64,
    ext32,
    ext32_exec,
    leading_zeros_64,
    lemma_ext32_nonzero,
    lemma_shift_masks,
    lt_signed,
    mul_upper,
    mul_upper_ss,
    mul_upper_su,
    mul_upper_uu,
    popcount,
    rem_s64,
    reverse_bytes,
    reverse_bytes_exec,
    rotl32,
    rotl32_exec,
    rotl64,
    rotl64_exec,
    rotr32,
    rotr32_exec,
    rotr64,
    rotr64_exec,
    s32,
    trailing_zeros_64,
    trunc_div,
    trunc_rem,
};
use crate::opcodes::{
    ADD_32,
    ADD_64,
    ADD_IMM_32,
    ADD_IMM_64,
    AND,
    AND_IMM,
    AND_INV,
    BRANCH_EQ,
    BRANCH_EQ_IMM,
    BRANCH_GE_S,
    BRANCH_GE_S_IMM,
    BRANCH_GE_U,
    BRANCH_GE_U_IMM,
    BRANCH_GT_S_IMM,
    BRANCH_GT_U_IMM,
    BRANCH_LE_S_IMM,
    BRANCH_LE_U_IMM,
    BRANCH_LT_S,
    BRANCH_LT_S_IMM,
    BRANCH_LT_U,
    BRANCH_LT_U_IMM,
    BRANCH_NE,
    BRANCH_NE_IMM,
    CMOV_IZ,
    CMOV_IZ_IMM,
    CMOV_NZ,
    CMOV_NZ_IMM,
    COUNT_SET_BITS_32,
    COUNT_SET_BITS_64,
    DIV_S_32,
    DIV_S_64,
    DIV_U_32,
    DIV_U_64,
    LEADING_ZERO_BITS_32,
    LEADING_ZERO_BITS_64,
    LOAD_I16,
    LOAD_I32,
    LOAD_I8,
    LOAD_IND_I16,
    LOAD_IND_I32,
    LOAD_IND_I8,
    LOAD_IND_U16,
    LOAD_IND_U32,
    LOAD_IND_U64,
    LOAD_IND_U8,
    LOAD_U16,
    LOAD_U32,
    LOAD_U64,
    LOAD_U8,
    MAX,
    MAX_U,
    MIN,
    MIN_U,
    MOVE_REG,
    MUL_32,
    MUL_64,
    MUL_IMM_32,
    MUL_IMM_64,
    MUL_UPPER_S_S,
    MUL_UPPER_S_U,
    MUL_UPPER_U_U,
    NEG_ADD_IMM_32,
    NEG_ADD_IMM_64,
    OR,
    OR_IMM,
    OR_INV,
    REM_S_32,
    REM_S_64,
    REM_U_32,
    REM_U_64,
    REVERSE_BYTES,
    ROT_L_32,
    ROT_L_64,
    ROT_R_32,
    ROT_R_32_IMM,
    ROT_R_32_IMM_ALT,
    ROT_R_64,
    ROT_R_64_IMM,
    ROT_R_64_IMM_ALT,
    SBRK,
    SET_GT_S_IMM,
    SET_GT_U_IMM,
    SET_LT_S,
    SET_LT_S_IMM,
    SET_LT_U,
    SET_LT_U_IMM,
    SHAR_R_32,
    SHAR_R_64,
    SHAR_R_IMM_32,
    SHAR_R_IMM_64,
    SHAR_R_IMM_ALT_32,
    SHAR_R_IMM_ALT_64,
    SHLO_L_32,
    SHLO_L_64,
    SHLO_L_IMM_32,
    SHLO_L_IMM_64,
    SHLO_L_IMM_ALT_32,
    SHLO_L_IMM_ALT_64,
    SHLO_R_32,
    SHLO_R_64,
    SHLO_R_IMM_32,
    SHLO_R_IMM_64,
    SHLO_R_IMM_ALT_32,
    SHLO_R_IMM_ALT_64,
    SIGN_EXTEND_16,
    SIGN_EXTEND_8,
    STORE_IMM_IND_U16,
    STORE_IMM_IND_U32,
    STORE_IMM_IND_U64,
    STORE_IMM_IND_U8,
    STORE_IMM_U16,
    STORE_IMM_U32,
    STORE_IMM_U64,
    STORE_IMM_U8,
    STORE_IND_U16,
    STORE_IND_U32,
    STORE_IND_U64,
    STORE_IND_U8,
    STORE_U16,
    STORE_U32,
    STORE_U64,
    STORE_U8,
    SUB_32,
    SUB_64,
    TRAILING_ZERO_BITS_32,
    TRAILING_ZERO_BITS_64,
    XNOR,
    XOR,
    XOR_IMM,
    ZERO_EXTEND_16,
};
use crate::utils::{sign_extend, sign_extend_spec, signed_of, word_of};

verus! {

/// Value that a three-register instruction writes to its destination, given
/// the two sources and the destination's old value; `None` for any other opcode.
pub open spec fn three_reg_value(op: u8, a: u64, b: u64, d: u64) -> Option<u64> {
    if op == ADD_32 {
        Some(ext32(a.wrapping_add(b)))
    } else if op == SUB_32 {
        Some(ext32((a & 0xFFFF_FFFFu64).wrapping_sub(b & 0xFFFF_FFFFu64)))
    } else if op == MUL_32 {
        Some(ext32(a.wrapping_mul(b)))
    } else if op == DIV_U_32 {
        Some(
            if b & 0xFFFF_FFFFu64 == 0 {
                u64::MAX
            } else {
                ext32((a & 0xFFFF_FFFFu64) / (b & 0xFFFF_FFFFu64))
            },
        )
    } else if op == DIV_S_32 {
        Some(
            if b & 0xFFFF_FFFFu64 == 0 {
                u64::MAX
            } else {
                ext32(word_of(trunc_div(s32(a), s32(b))))
            },
        )
    } else if op == REM_U_32 {
        Some(
            if b & 0xFFFF_FFFFu64 == 0 {
                ext32(a)
            } else {
                ext32((a & 0xFFFF_FFFFu64) % (b & 0xFFFF_FFFFu64))
            },
        )
    } else if op == REM_S_32 {
        Some(
            if b & 0xFFFF_FFFFu64 == 0 {
                ext32(a)
            } else {
                ext32(word_of(trunc_rem(s32(a), s32(b))))
            },
        )
    } else if op == SHLO_L_32 {
        Some(ext32((a & 0xFFFF_FFFFu64) << (b & 31u64)))
    } else if op == SHLO_R_32 {
        Some(ext32((a & 0xFFFF_FFFFu64) >> (b & 31u64)))
    } else if op == SHAR_R_32 {
        Some(ext32(ext32(a) >> (b & 31u64)))
    } else if op == ADD_64 {
        Some(a.wrapping_add(b))
    } else if op == SUB_64 {
        Some(a.wrapping_sub(b))
    } else if op == MUL_64 {
        Some(a.wrapping_mul(b))
    } else if op == DIV_U_64 {
        Some(
            if b == 0 {
                u64::MAX
            } else {
                a / b
            },
        )
    } else if op == DIV_S_64 {
        Some(
            if b == 0 {
                u64::MAX
            } else {
                word_of(trunc_div(signed_of(a), signed_of(b)))
            },
        )
    } else if op == REM_U_64 {
        Some(
            if b == 0 {
                a
            } else {
                a % b
            },
        )
    } else if op == REM_S_64 {
        Some(
            if b == 0 {
                a
            } else {
                word_of(trunc_rem(signed_of(a), signed_of(b)))
            },
        )
    } else if op == SHLO_L_64 {
        Some(a << (b & 63u64))
    } else if op == SHLO_R_64 {
        Some(a >> (b & 63u64))
    } else if op == SHAR_R_64 {
        Some(ashr64(a, b & 63u64))
    } else if op == AND {
        Some(a & b)
    } else if op == XOR {
        Some(a ^ b)
    } else if op == OR {
        Some(a | b)
    } else if op == MUL_UPPER_S_S {
        Some(mul_upper(signed_of(a), signed_of(b)))
    } else if op == MUL_UPPER_U_U {
        Some(mul_upper(a as int, b as int))
    } else if op == MUL_UPPER_S_U {
        Some(mul_upper(signed_of(a), b as int))
    } else if op == SET_LT_U {
        Some(bool_word(a < b))
    } else if op == SET_LT_S {
        Some(bool_word(signed_of(a) < signed_of(b)))
    } else if op == CMOV_IZ {
        Some(
            if b == 0 {
                a
            } else {
                d
            },
        )
    } else if op == CMOV_NZ {
        Some(
            if b != 0 {
                a
            } else {
                d
            },
        )
    } else if op == ROT_L_64 {
        Some(rotl64(a, b % 64))
    } else if op == ROT_L_32 {
        Some(ext32(rotl32(a & 0xFFFF_FFFFu64, b & 31u64)))
    } else if op == ROT_R_64 {
        Some(rotr64(a, b % 64))
    } else if op == ROT_R_32 {
        Some(ext32(rotr32(a & 0xFFFF_FFFFu64, b & 31u64)))
    } else if op == AND_INV {
        Some(a & !b)
    } else if op == OR_INV {
        Some(a | !b)
    } else if op == XNOR {
        Some(!(a ^ b))
    } else if op == MAX {
        Some(
            if signed_of(a) >= signed_of(b) {
                a
            } else {
                b
            },
        )
    } else if op == MAX_U {
        Some(
            if a >= b {
                a
            } else {
                b
            },
        )
    } else if op == MIN {
        Some(
            if signed_of(a) <= signed_of(b) {
                a
            } else {
                b
            },
        )
    } else if op == MIN_U {
        Some(
            if a <= b {
                a
            } else {
                b
            },
        )
    } else {
        None
    }
}

/// Opcodes whose result is a 32-bit value sign-extended to 64 bits.
pub open spec fn is_32bit_op(op: u8) -> bool {
    ||| (ADD_32 <= op <= SHAR_R_32)
    ||| op == ROT_L_32
    ||| op == ROT_R_32
    ||| op == ADD_IMM_32
    ||| op == MUL_IMM_32
    ||| op == NEG_ADD_IMM_32
    ||| (SHLO_L_IMM_32 <= op <= SHAR_R_IMM_32)
    ||| (SHLO_L_IMM_ALT_32 <= op <= SHAR_R_IMM_ALT_32)
    ||| op == ROT_R_32_IMM
    ||| op == ROT_R_32_IMM_ALT
}

pub fn three_reg_alu(op: u8, a: u64, b: u64, d: u64) -> (r: Option<u64>)
    ensures
        r == three_reg_value(op, a, b, d),
{
    proof {
        lemma_shift_masks(b);
    }
    if op == ADD_32 {
        Some(ext32_exec(a.wrapping_add(b)))
    } else if op == SUB_32 {
        Some(ext32_exec((a & MASK_32).wrapping_sub(b & MASK_32)))
    } else if op == MUL_32 {
        Some(ext32_exec(a.wrapping_mul(b)))
    } else if op == DIV_U_32 {
        Some(
            if b & MASK_32 == 0 {
                u64::MAX
            } else {
                ext32_exec((a & MASK_32) / (b & MASK_32))
            },
        )
    } else if op == DIV_S_32 {
        if b & MASK_32 == 0 {
            Some(u64::MAX)
        } else {
            proof {
                lemma_ext32_nonzero(b);
            }
            Some(ext32_exec(div_s64(ext32_exec(a), ext32_exec(b))))
        }
    } else if op == REM_U_32 {
        Some(
            if b & MASK_32 == 0 {
                ext32_exec(a)
            } else {
                ext32_exec((a & MASK_32) % (b & MASK_32))
            },
        )
    } else if op == REM_S_32 {
        if b & MASK_32 == 0 {
            Some(ext32_exec(a))
        } else {
            proof {
                lemma_ext32_nonzero(b);
            }
            Some(ext32_exec(rem_s64(ext32_exec(a), ext32_exec(b))))
        }
    } else if op == SHLO_L_32 {
        Some(ext32_exec((a & MASK_32) << (b & 31)))
    } else if op == SHLO_R_32 {
        Some(ext32_exec((a & MASK_32) >> (b & 31)))
    } else if op == SHAR_R_32 {
        Some(ext32_exec(ext32_exec(a) >> (b & 31)))
    } else if op == ADD_64 {
        Some(a.wrapping_add(b))
    } else if op == SUB_64 {
        Some(a.wrapping_sub(b))
    } else if op == MUL_64 {
        Some(a.wrapping_mul(b))
    } else if op == DIV_U_64 {
        Some(
            if b == 0 {
                u64::MAX
            } else {
                a / b
            },
        )
    } else if op == DIV_S_64 {
        Some(
            if b == 0 {
                u64::MAX
            } else {
                div_s64(a, b)
            },
        )
    } else if op == REM_U_64 {
        Some(
            if b == 0 {
                a
            } else {
                a % b
            },
        )
    } else if op == REM_S_64 {
        Some(
            if b == 0 {
                a
            } else {
                rem_s64(a, b)
            },
        )
    } else if op == SHLO_L_64 {
        Some(a << (b & 63))
    } else if op == SHLO_R_64 {
        Some(a >> (b & 63))
    } else if op == SHAR_R_64 {
        Some(ashr64_exec(a, b & 63))
    } else if op == AND {
        Some(a & b)
    } else if op == XOR {
        Some(a ^ b)
    } else if op == OR {
        Some(a | b)
    } else if op == MUL_UPPER_S_S {
        Some(mul_upper_ss(a, b))
    } else if op == MUL_UPPER_U_U {
        Some(mul_upper_uu(a, b))
    } else if op == MUL_UPPER_S_U {
        Some(mul_upper_su(a, b))
    } else if op == SET_LT_U {
        Some(
            if a < b {
                1
            } else {
                0
            },
        )
    } else if op == SET_LT_S {
        Some(
            if lt_signed(a, b) {
                1
            } else {
                0
            },
        )
    } else if op == CMOV_IZ {
        Some(
            if b == 0 {
                a
            } else {
                d
            },
        )
    } else if op == CMOV_NZ {
        Some(
            if b != 0 {
                a
            } else {
                d
            },
        )
    } else if op == ROT_L_64 {
        Some(rotl64_exec(a, b % 64))
    } else if op == ROT_L_32 {
        Some(ext32_exec(rotl32_exec(a & MASK_32, b & 31)))
    } else if op == ROT_R_64 {
        Some(rotr64_exec(a, b % 64))
    } else if op == ROT_R_32 {
        Some(ext32_exec(rotr32_exec(a & MASK_32, b & 31)))
    } else if op == AND_INV {
        Some(a & !b)
    } else if op == OR_INV {
        Some(a | !b)
    } else if op == XNOR {
        Some(!(a ^ b))
    } else if op == MAX {
        Some(
            if !lt_signed(a, b) {
                a
            } else {
                b
            },
        )
    } else if op == MAX_U {
        Some(
            if a >= b {
                a
            } else {
                b
            },
        )
    } else if op == MIN {
        Some(
            if !lt_signed(b, a) {
                a
            } else {
                b
            },
        )
    } else if op == MIN_U {
        Some(
            if a <= b {
                a
            } else {
                b
            },
        )
    } else {
        None
    }
}

/// Value that a two-register, one-immediate arithmetic instruction writes to
/// its first register, given both registers and the immediate; `None` for
/// loads, stores and any other opcode.
pub open spec fn two_reg_imm_value(op: u8, a: u64, b: u64, x: u64) -> Option<u64> {
    if op == ADD_IMM_32 {
        Some(ext32(b.wrapping_add(x)))
    } else if op == MUL_IMM_32 {
        Some(ext32(b.wrapping_mul(x)))
    } else if op == NEG_ADD_IMM_32 {
        Some(ext32(x.wrapping_sub(b)))
    } else if op == AND_IMM {
        Some(b & x)
    } else if op == XOR_IMM {
        Some(b ^ x)
    } else if op == OR_IMM {
        Some(b | x)
    } else if op == SET_LT_U_IMM {
        Some(bool_word(b < x))
    } else if op == SET_LT_S_IMM {
        Some(bool_word(signed_of(b) < signed_of(x)))
    } else if op == SET_GT_U_IMM {
        Some(bool_word(b > x))
    } else if op == SET_GT_S_IMM {
        Some(bool_word(signed_of(b) > signed_of(x)))
    } else if op == SHLO_L_IMM_32 {
        Some(ext32((b & 0xFFFF_FFFFu64) << (x & 31u64)))
    } else if op == SHLO_R_IMM_32 {
        Some(ext32((b & 0xFFFF_FFFFu64) >> (x & 31u64)))
    } else if op == SHAR_R_IMM_32 {
        Some(ext32(ext32(b) >> (x & 31u64)))
    } else if op == SHLO_L_IMM_ALT_32 {
        Some(ext32((x & 0xFFFF_FFFFu64) << (b & 31u64)))
    } else if op == SHLO_R_IMM_ALT_32 {
        Some(ext32((x & 0xFFFF_FFFFu64) >> (b & 31u64)))
    } else if op == SHAR_R_IMM_ALT_32 {
        Some(ext32(ext32(x) >> (b & 31u64)))
    } else if op == CMOV_IZ_IMM {
        Some(
            if b == 0 {
                x
            } else {
                a
            },
        )
    } else if op == CMOV_NZ_IMM {
        Some(
            if b != 0 {
                x
            } else {
                a
            },
        )
    } else if op == ADD_IMM_64 {
        Some(b.wrapping_add(x))
    } else if op == MUL_IMM_64 {
        Some(b.wrapping_mul(x))
    } else if op == NEG_ADD_IMM_64 {
        Some(x.wrapping_sub(b))
    } else if op == SHLO_L_IMM_64 {
        Some(b << (x & 63u64))
    } else if op == SHLO_R_IMM_64 {
        Some(b >> (x & 63u64))
    } else if op == SHAR_R_IMM_64 {
        Some(ashr64(b, x & 63u64))
    } else if op == SHLO_L_IMM_ALT_64 {
        Some(x << (b & 63u64))
    } else if op == SHLO_R_IMM_ALT_64 {
        Some(x >> (b & 63u64))
    } else if op == SHAR_R_IMM_ALT_64 {
        Some(ashr64(x, b & 63u64))
    } else if op == ROT_R_64_IMM {
        Some(rotr64(b, x & 63u64))
    } else if op == ROT_R_64_IMM_ALT {
        Some(rotr64(x, b & 63u64))
    } else if op == ROT_R_32_IMM {
        Some(ext32(rotr32(b & 0xFFFF_FFFFu64, x & 31u64)))
    } else if op == ROT_R_32_IMM_ALT {
        Some(ext32(rotr32(x & 0xFFFF_FFFFu64, b & 31u64)))
    } else {
        None
    }
}

pub fn two_reg_imm_alu(op: u8, a: u64, b: u64, x: u64) -> (r: Option<u64>)
    ensures
        r == two_reg_imm_value(op, a, b, x),
{
    proof {
        lemma_shift_masks(b);
        lemma_shift_masks(x);
    }
    if op == ADD_IMM_32 {
        Some(ext32_exec(b.wrapping_add(x)))
    } else if op == MUL_IMM_32 {
        Some(ext32_exec(b.wrapping_mul(x)))
    } else if op == NEG_ADD_IMM_32 {
        Some(ext32_exec(x.wrapping_sub(b)))
    } else if op == AND_IMM {
        Some(b & x)
    } else if op == XOR_IMM {
        Some(b ^ x)
    } else if op == OR_IMM {
        Some(b | x)
    } else if op == SET_LT_U_IMM {
        Some(if b < x { 1 } else { 0 })
    } else if op == SET_LT_S_IMM {
        Some(if lt_signed(b, x) { 1 } else { 0 })
    } else if op == SET_GT_U_IMM {
        Some(if b > x { 1 } else { 0 })
    } else if op == SET_GT_S_IMM {
        Some(if lt_signed(x, b) { 1 } else { 0 })
    } else if op == SHLO_L_IMM_32 {
        Some(ext32_exec((b & MASK_32) << (x & 31)))
    } else if op == SHLO_R_IMM_32 {
        Some(ext32_exec((b & MASK_32) >> (x & 31)))
    } else if op == SHAR_R_IMM_32 {
        Some(ext32_exec(ext32_exec(b) >> (x & 31)))
    } else if op == SHLO_L_IMM_ALT_32 {
        Some(ext32_exec((x & MASK_32) << (b & 31)))
    } else if op == SHLO_R_IMM_ALT_32 {
        Some(ext32_exec((x & MASK_32) >> (b & 31)))
    } else if op == SHAR_R_IMM_ALT_32 {
        Some(ext32_exec(ext32_exec(x) >> (b & 31)))
    } else if op == CMOV_IZ_IMM {
        Some(if b == 0 { x } else { a })
    } else if op == CMOV_NZ_IMM {
        Some(if b != 0 { x } else { a })
    } else if op == ADD_IMM_64 {
        Some(b.wrapping_add(x))
    } else if op == MUL_IMM_64 {
        Some(b.wrapping_mul(x))
    } else if op == NEG_ADD_IMM_64 {
        Some(x.wrapping_sub(b))
    } else if op == SHLO_L_IMM_64 {
        Some(b << (x & 63))
    } else if op == SHLO_R_IMM_64 {
        Some(b >> (x & 63))
    } else if op == SHAR_R_IMM_64 {
        Some(ashr64_exec(b, x & 63))
    } else if op == SHLO_L_IMM_ALT_64 {
        Some(x << (b & 63))
    } else if op == SHLO_R_IMM_ALT_64 {
        Some(x >> (b & 63))
    } else if op == SHAR_R_IMM_ALT_64 {
        Some(ashr64_exec(x, b & 63))
    } else if op == ROT_R_64_IMM {
        Some(rotr64_exec(b, x & 63))
    } else if op == ROT_R_64_IMM_ALT {
        Some(rotr64_exec(x, b & 63))
    } else if op == ROT_R_32_IMM {
        Some(ext32_exec(rotr32_exec(b & MASK_32, x & 31)))
    } else if op == ROT_R_32_IMM_ALT {
        Some(ext32_exec(rotr32_exec(x & MASK_32, b & 31)))
    } else {
        None
    }
}

/// Value that a two-register instruction (other than `SBRK`) writes to its
/// destination, given the source; `None` for any other opcode.
pub open spec fn two_reg_value(op: u8, a: u64) -> Option<u64> {
    if op == MOVE_REG {
        Some(a)
    } else if op == COUNT_SET_BITS_64 {
        Some(popcount(a) as u64)
    } else if op == COUNT_SET_BITS_32 {
        Some(popcount(a & 0xFFFF_FFFFu64) as u64)
    } else if op == LEADING_ZERO_BITS_64 {
        Some(u64_leading_zeros(a) as u64)
    } else if op == LEADING_ZERO_BITS_32 {
        Some(
            if a & 0xFFFF_FFFFu64 == 0 {
                32
            } else {
                (u64_leading_zeros(a & 0xFFFF_FFFFu64) - 32) as u64
            },
        )
    } else if op == TRAILING_ZERO_BITS_64 {
        Some(
            if a == 0 {
                64
            } else {
                u64_trailing_zeros(a) as u64
            },
        )
    } else if op == TRAILING_ZERO_BITS_32 {
        Some(
            if a & 0xFFFF_FFFFu64 == 0 {
                32
            } else {
                u64_trailing_zeros(a & 0xFFFF_FFFFu64) as u64
            },
        )
    } else if op == SIGN_EXTEND_8 {
        Some(sign_extend_spec(a & 0xFFu64, 1))
    } else if op == SIGN_EXTEND_16 {
        Some(sign_extend_spec(a & 0xFFFFu64, 2))
    } else if op == ZERO_EXTEND_16 {
        Some(a & 0xFFFFu64)
    } else if op == REVERSE_BYTES {
        Some(reverse_bytes(a))
    } else {
        None
    }
}

pub proof fn lemma_leading_zeros_32(a: u64)
    requires
        a != 0,
        a <= 0xFFFF_FFFF,
    ensures
        32 <= u64_leading_zeros(a) <= 63,
{
    vstd::std_specs::bits::axiom_u64_leading_zeros(a);
    let lz = u64_leading_zeros(a);
    if lz < 32 {
        let k = vstd::prelude::sub(63u64, lz as u64);
        assert(k >= 32 && k < 64);
        assert(a <= 0xFFFF_FFFF && k >= 32 && k < 64 ==> (a >> k) & 1u64 == 0) by (bit_vector);
    }
}

pub fn two_reg_alu(op: u8, a: u64) -> (r: Option<u64>)
    ensures
        r == two_reg_value(op, a),
{
    if op == MOVE_REG {
        Some(a)
    } else if op == COUNT_SET_BITS_64 {
        Some(count_ones(a))
    } else if op == COUNT_SET_BITS_32 {
        Some(count_ones(a & MASK_32))
    } else if op == LEADING_ZERO_BITS_64 {
        Some(leading_zeros_64(a))
    } else if op == LEADING_ZERO_BITS_32 {
        if a & MASK_32 == 0 {
            Some(32)
        } else {
            proof {
                lemma_shift_masks(a);
                lemma_leading_zeros_32(a & 0xFFFF_FFFFu64);
            }
            Some(leading_zeros_64(a & MASK_32) - 32)
        }
    } else if op == TRAILING_ZERO_BITS_64 {
        Some(if a == 0 { 64 } else { trailing_zeros_64(a) })
    } else if op == TRAILING_ZERO_BITS_32 {
        let v = a & MASK_32;
        Some(if v == 0 { 32 } else { trailing_zeros_64(v) })
    } else if op == SIGN_EXTEND_8 {
        Some(sign_extend(a & 0xFF, 1))
    } else if op == SIGN_EXTEND_16 {
        Some(sign_extend(a & 0xFFFF, 2))
    } else if op == ZERO_EXTEND_16 {
        Some(a & 0xFFFF)
    } else if op == REVERSE_BYTES {
        Some(reverse_bytes_exec(a))
    } else {
        None
    }
}

/// Condition of a register-immediate branch; `None` for any other opcode.
pub open spec fn branch_imm_cond(op: u8, a: u64, x: u64) -> Option<bool> {
    if op == BRANCH_EQ_IMM {
        Some(a == x)
    } else if op == BRANCH_NE_IMM {
        Some(a != x)
    } else if op == BRANCH_LT_U_IMM {
        Some(a < x)
    } else if op == BRANCH_LE_U_IMM {
        Some(a <= x)
    } else if op == BRANCH_GE_U_IMM {
        Some(a >= x)
    } else if op == BRANCH_GT_U_IMM {
        Some(a > x)
    } else if op == BRANCH_LT_S_IMM {
        Some(signed_of(a) < signed_of(x))
    } else if op == BRANCH_LE_S_IMM {
        Some(signed_of(a) <= signed_of(x))
    } else if op == BRANCH_GE_S_IMM {
        Some(signed_of(a) >= signed_of(x))
    } else if op == BRANCH_GT_S_IMM {
        Some(signed_of(a) > signed_of(x))
    } else {
        None
    }
}

pub fn branch_imm_test(op: u8, a: u64, x: u64) -> (r: Option<bool>)
    ensures
        r == branch_imm_cond(op, a, x),
{
    if op == BRANCH_EQ_IMM {
        Some(a == x)
    } else if op == BRANCH_NE_IMM {
        Some(a != x)
    } else if op == BRANCH_LT_U_IMM {
        Some(a < x)
    } else if op == BRANCH_LE_U_IMM {
        Some(a <= x)
    } else if op == BRANCH_GE_U_IMM {
        Some(a >= x)
    } else if op == BRANCH_GT_U_IMM {
        Some(a > x)
    } else if op == BRANCH_LT_S_IMM {
        Some(lt_signed(a, x))
    } else if op == BRANCH_LE_S_IMM {
        Some(!lt_signed(x, a))
    } else if op == BRANCH_GE_S_IMM {
        Some(!lt_signed(a, x))
    } else if op == BRANCH_GT_S_IMM {
        Some(lt_signed(x, a))
    } else {
        None
    }
}

/// Condition of a register-register branch; `None` for any other opcode.
pub open spec fn branch_reg_cond(op: u8, a: u64, b: u64) -> Option<bool> {
    if op == BRANCH_EQ {
        Some(a == b)
    } else if op == BRANCH_NE {
        Some(a != b)
    } else if op == BRANCH_LT_U {
        Some(a < b)
    } else if op == BRANCH_LT_S {
        Some(signed_of(a) < signed_of(b))
    } else if op == BRANCH_GE_U {
        Some(a >= b)
    } else if op == BRANCH_GE_S {
        Some(signed_of(a) >= signed_of(b))
    } else {
        None
    }
}

pub fn branch_reg_test(op: u8, a: u64, b: u64) -> (r: Option<bool>)
    ensures
        r == branch_reg_cond(op, a, b),
{
    if op == BRANCH_EQ {
        Some(a == b)
    } else if op == BRANCH_NE {
        Some(a != b)
    } else if op == BRANCH_LT_U {
        Some(a < b)
    } else if op == BRANCH_LT_S {
        Some(lt_signed(a, b))
    } else if op == BRANCH_GE_U {
        Some(a >= b)
    } else if op == BRANCH_GE_S {
        Some(!lt_signed(a, b))
    } else {
        None
    }
}

/// Width in bytes and signedness of a load; `None` for any other opcode.
pub open spec fn load_kind(op: u8) -> Option<(usize, bool)> {
    if op == LOAD_U8 || op == LOAD_IND_U8 {
        Some((1usize, false))
    } else if op == LOAD_I8 || op == LOAD_IND_I8 {
        Some((1usize, true))
    } else if op == LOAD_U16 || op == LOAD_IND_U16 {
        Some((2usize, false))
    } else if op == LOAD_I16 || op == LOAD_IND_I16 {
        Some((2usize, true))
    } else if op == LOAD_U32 || op == LOAD_IND_U32 {
        Some((4usize, false))
    } else if op == LOAD_I32 || op == LOAD_IND_I32 {
        Some((4usize, true))
    } else if op == LOAD_U64 || op == LOAD_IND_U64 {
        Some((8usize, false))
    } else {
        None
    }
}

pub fn load_kind_of(op: u8) -> (r: Option<(usize, bool)>)
    ensures
        r == load_kind(op),
{
    if op == LOAD_U8 || op == LOAD_IND_U8 {
        Some((1usize, false))
    } else if op == LOAD_I8 || op == LOAD_IND_I8 {
        Some((1usize, true))
    } else if op == LOAD_U16 || op == LOAD_IND_U16 {
        Some((2usize, false))
    } else if op == LOAD_I16 || op == LOAD_IND_I16 {
        Some((2usize, true))
    } else if op == LOAD_U32 || op == LOAD_IND_U32 {
        Some((4usize, false))
    } else if op == LOAD_I32 || op == LOAD_IND_I32 {
        Some((4usize, true))
    } else if op == LOAD_U64 || op == LOAD_IND_U64 {
        Some((8usize, false))
    } else {
        None
    }
}

/// Width in bytes of a store; `None` for any other opcode.
pub open spec fn store_width(op: u8) -> Option<usize> {
    if op == STORE_U8 || op == STORE_IND_U8 || op == STORE_IMM_U8 || op == STORE_IMM_IND_U8 {
        Some(1usize)
    } else if op == STORE_U16 || op == STORE_IND_U16 || op == STORE_IMM_U16 || op == STORE_IMM_IND_U16 {
        Some(2usize)
    } else if op == STORE_U32 || op == STORE_IND_U32 || op == STORE_IMM_U32 || op == STORE_IMM_IND_U32 {
        Some(4usize)
    } else if op == STORE_U64 || op == STORE_IND_U64 || op == STORE_IMM_U64 || op == STORE_IMM_IND_U64 {
        Some(8usize)
    } else {
        None
    }
}

pub fn store_width_of(op: u8) -> (r: Option<usize>)
    ensures
        r == store_width(op),
{
    if op == STORE_U8 || op == STORE_IND_U8 || op == STORE_IMM_U8 || op == STORE_IMM_IND_U8 {
        Some(1usize)
    } else if op == STORE_U16 || op == STORE_IND_U16 || op == STORE_IMM_U16 || op == STORE_IMM_IND_U16 {
        Some(2usize)
    } else if op == STORE_U32 || op == STORE_IND_U32 || op == STORE_IMM_U32 || op == STORE_IMM_IND_U32 {
        Some(4usize)
    } else if op == STORE_U64 || op == STORE_IND_U64 || op == STORE_IMM_U64 || op == STORE_IMM_IND_U64 {
        Some(8usize)
    } else {
        None
    }
}

} // verus!
