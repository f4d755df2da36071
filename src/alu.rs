//! Arithmetic and logic of the instruction set, stated over words and
//! integers, with the executable operations proved against them.
use vstd::prelude::*;
use vstd::std_specs::bits::{u64_leading_zeros, u64_trailing_zeros};

use crate::utils::{
    lemma_pow256_values,
    sign_extend,
    sign_extend_spec,
    signed_of,
    to_signed,
    word_of,
};

verus! {

pub const MASK_32: u64 = 0xFFFF_FFFF;

/// The low 32 bits of `x`, sign-extended to 64 bits.
pub open spec fn ext32(x: u64) -> u64 {
    sign_extend_spec(x & 0xFFFF_FFFFu64, 4)
}

/// The low 32 bits of `x` as a signed integer.
pub open spec fn s32(x: u64) -> int {
    signed_of(ext32(x))
}

pub open spec fn abs(i: int) -> int {
    if i < 0 {
        -i
    } else {
        i
    }
}

/// Division rounding toward zero.
pub open spec fn trunc_div(a: int, b: int) -> int {
    if (a < 0) == (b < 0) {
        abs(a) / abs(b)
    } else {
        -(abs(a) / abs(b))
    }
}

/// Remainder of division rounding toward zero; it takes the dividend's sign.
pub open spec fn trunc_rem(a: int, b: int) -> int {
    a - b * trunc_div(a, b)
}

/// Arithmetic shift right by `s` (below 64).
pub open spec fn ashr64(x: u64, s: u64) -> u64 {
    if x < 0x8000_0000_0000_0000 {
        x >> s
    } else {
        !((!x) >> s)
    }
}

pub open spec fn rotl64(x: u64, s: u64) -> u64 {
    if s == 0 {
        x
    } else {
        (x << s) | (x >> (64 - s))
    }
}

pub open spec fn rotr64(x: u64, s: u64) -> u64 {
    if s == 0 {
        x
    } else {
        (x >> s) | (x << (64 - s))
    }
}

/// Left rotation of the 32-bit word `x` (below 2^32).
pub open spec fn rotl32(x: u64, s: u64) -> u64 {
    if s == 0 {
        x
    } else {
        ((x << s) | (x >> (32 - s))) & 0xFFFF_FFFFu64
    }
}

/// Right rotation of the 32-bit word `x` (below 2^32).
pub open spec fn rotr32(x: u64, s: u64) -> u64 {
    if s == 0 {
        x
    } else {
        ((x >> s) | (x << (32 - s))) & 0xFFFF_FFFFu64
    }
}

pub open spec fn popcount(x: u64) -> nat
    decreases x,
{
    if x == 0 {
        0
    } else {
        (x % 2) as nat + popcount(x / 2)
    }
}

/// Byte `i` of `x`, least significant first.
pub open spec fn byte_of(x: u64, i: u64) -> u64 {
    (x >> (8 * i)) & 0xFFu64
}

pub open spec fn reverse_bytes(x: u64) -> u64 {
    (byte_of(x, 0) << 56u64) | (byte_of(x, 1) << 48u64) | (byte_of(x, 2) << 40u64) | (byte_of(x, 3)
        << 32u64) | (byte_of(x, 4) << 24u64) | (byte_of(x, 5) << 16u64) | (byte_of(x, 6) << 8u64)
        | byte_of(x, 7)
}

/// The upper 64 bits of the 128-bit product of the integers `a` and `b`.
pub open spec fn mul_upper(a: int, b: int) -> u64 {
    word_of((a * b) / 0x1_0000_0000_0000_0000)
}

pub open spec fn bool_word(b: bool) -> u64 {
    if b {
        1
    } else {
        0
    }
}

pub proof fn lemma_ext32_is_extension(x: u64)
    ensures
        ext32(x) == sign_extend_spec(ext32(x), 4),
        ext32(ext32(x)) == ext32(x),
{
    lemma_pow256_values();
    assert((x & 0xFFFF_FFFFu64) < 0x1_0000_0000u64) by (bit_vector);
    let e = ext32(x);
    assert(e % 0x1_0000_0000 == (x & 0xFFFF_FFFFu64));
    assert(e & 0xFFFF_FFFFu64 == e % 0x1_0000_0000) by (bit_vector);
}

pub proof fn lemma_ext32_nonzero(x: u64)
    ensures
        (x & 0xFFFF_FFFFu64 == 0) == (ext32(x) == 0),
{
    lemma_pow256_values();
    assert((x & 0xFFFF_FFFFu64) < 0x1_0000_0000u64) by (bit_vector);
}

pub proof fn lemma_shift_masks(b: u64)
    ensures
        b & 31u64 < 32,
        b & 63u64 < 64,
        b & 7u64 < 8,
        b & 0xFFFF_FFFFu64 <= 0xFFFF_FFFFu64,
{
    assert(b & 31u64 < 32) by (bit_vector);
    assert(b & 63u64 < 64) by (bit_vector);
    assert(b & 7u64 < 8) by (bit_vector);
    assert(b & 0xFFFF_FFFFu64 <= 0xFFFF_FFFFu64) by (bit_vector);
}

pub fn ext32_exec(x: u64) -> (r: u64)
    ensures
        r == ext32(x),
{
    sign_extend(x & MASK_32, 4)
}

/// Absolute value of a word read as signed, and whether it was negative.
fn magnitude(x: u64) -> (r: (u64, bool))
    ensures
        r.0 as int == abs(signed_of(x)),
        r.1 == (signed_of(x) < 0),
{
    if x >= 0x8000_0000_0000_0000 {
        (0u64.wrapping_sub(x), true)
    } else {
        (x, false)
    }
}

/// A magnitude with a sign, as a 64-bit word.
fn signed_word(m: u64, neg: bool) -> (r: u64)
    ensures
        r == word_of(if neg { -(m as int) } else { m as int }),
{
    if neg {
        0u64.wrapping_sub(m)
    } else {
        m
    }
}

/// Signed division rounding toward zero; `MIN / -1` wraps to `MIN`.
pub fn div_s64(a: u64, b: u64) -> (r: u64)
    requires
        b != 0,
    ensures
        r == word_of(trunc_div(signed_of(a), signed_of(b))),
{
    let (ma, na) = magnitude(a);
    let (mb, nb) = magnitude(b);
    let q = ma / mb;
    signed_word(q, na != nb)
}

/// Signed remainder taking the dividend's sign.
pub fn rem_s64(a: u64, b: u64) -> (r: u64)
    requires
        b != 0,
    ensures
        r == word_of(trunc_rem(signed_of(a), signed_of(b))),
{
    let (ma, na) = magnitude(a);
    let (mb, nb) = magnitude(b);
    let rm = ma % mb;
    proof {
        let sa = signed_of(a);
        let sb = signed_of(b);
        let q = (ma as int) / (mb as int);
        assert((ma as int) == (mb as int) * q + rm as int) by (nonlinear_arith)
            requires
                mb > 0,
                q == (ma as int) / (mb as int),
                rm as int == (ma as int) % (mb as int),
        ;
        let t = trunc_div(sa, sb);
        assert(sb * t == if na { -(ma as int) + rm as int } else { ma as int - rm as int }) by (nonlinear_arith)
            requires
                ma as int == abs(sa),
                mb as int == abs(sb),
                na == (sa < 0),
                nb == (sb < 0),
                t == trunc_div(sa, sb),
                q == abs(sa) / abs(sb),
                (ma as int) == (mb as int) * q + rm as int,
        ;
    }
    signed_word(rm, na)
}

/// Upper half of the product of a signed magnitude pair.
fn mul_upper_magnitudes(ma: u64, mb: u64, neg: bool) -> (r: u64)
    requires
        ma <= 0x8000_0000_0000_0000,
    ensures
        r == mul_upper(if neg { -(ma as int) } else { ma as int }, mb as int),
{
    proof {
        assert((ma as int) * (mb as int) <= 0x8000_0000_0000_0000 * 0xFFFF_FFFF_FFFF_FFFF) by (nonlinear_arith)
            requires
                ma <= 0x8000_0000_0000_0000,
                mb <= 0xFFFF_FFFF_FFFF_FFFF,
        ;
    }
    let p: u128 = (ma as u128) * (mb as u128);
    let d: u128 = 0x1_0000_0000_0000_0000u128;
    if !neg {
        (p / d) as u64
    } else {
        let c = ((p + (d - 1)) / d) as u64;
        proof {
            let pi = p as int;
            let di = d as int;
            let qc = (pi + di - 1) / di;
            let rc = (pi + di - 1) % di;
            assert(pi + di - 1 == qc * di + rc);
            assert(-pi == -qc * di + (di - 1 - rc));
            assert((-pi) / di == -qc);
            assert((-(ma as int)) * (mb as int) == -pi) by (nonlinear_arith)
                requires
                    pi == (ma as int) * (mb as int),
            ;
        }
        0u64.wrapping_sub(c)
    }
}

pub fn mul_upper_ss(a: u64, b: u64) -> (r: u64)
    ensures
        r == mul_upper(signed_of(a), signed_of(b)),
{
    let (ma, na) = magnitude(a);
    let (mb, nb) = magnitude(b);
    let r = mul_upper_magnitudes(ma, mb, na != nb);
    proof {
        let sa = signed_of(a);
        let sb = signed_of(b);
        assert(sa * sb == (if na != nb { -(ma as int) } else { ma as int }) * (mb as int)) by (nonlinear_arith)
            requires
                ma as int == abs(sa),
                mb as int == abs(sb),
                na == (sa < 0),
                nb == (sb < 0),
        ;
    }
    r
}

pub fn mul_upper_su(a: u64, b: u64) -> (r: u64)
    ensures
        r == mul_upper(signed_of(a), b as int),
{
    let (ma, na) = magnitude(a);
    let r = mul_upper_magnitudes(ma, b, na);
    proof {
        let sa = signed_of(a);
        assert(sa * (b as int) == (if na { -(ma as int) } else { ma as int }) * (b as int)) by (nonlinear_arith)
            requires
                ma as int == abs(sa),
                na == (sa < 0),
        ;
    }
    r
}

pub fn mul_upper_uu(a: u64, b: u64) -> (r: u64)
    ensures
        r == mul_upper(a as int, b as int),
{
    proof {
        assert((a as int) * (b as int) <= 0xFFFF_FFFF_FFFF_FFFF * 0xFFFF_FFFF_FFFF_FFFF) by (nonlinear_arith)
            requires
                a <= 0xFFFF_FFFF_FFFF_FFFF,
                b <= 0xFFFF_FFFF_FFFF_FFFF,
        ;
    }
    let p: u128 = (a as u128) * (b as u128);
    (p / 0x1_0000_0000_0000_0000u128) as u64
}

pub fn ashr64_exec(x: u64, s: u64) -> (r: u64)
    requires
        s < 64,
    ensures
        r == ashr64(x, s),
{
    if x < 0x8000_0000_0000_0000 {
        x >> s
    } else {
        !((!x) >> s)
    }
}

pub fn rotl64_exec(x: u64, s: u64) -> (r: u64)
    requires
        s < 64,
    ensures
        r == rotl64(x, s),
{
    if s == 0 {
        x
    } else {
        (x << s) | (x >> (64 - s))
    }
}

pub fn rotr64_exec(x: u64, s: u64) -> (r: u64)
    requires
        s < 64,
    ensures
        r == rotr64(x, s),
{
    if s == 0 {
        x
    } else {
        (x >> s) | (x << (64 - s))
    }
}

pub fn rotl32_exec(x: u64, s: u64) -> (r: u64)
    requires
        s < 32,
    ensures
        r == rotl32(x, s),
{
    if s == 0 {
        x
    } else {
        ((x << s) | (x >> (32 - s))) & MASK_32
    }
}

pub fn rotr32_exec(x: u64, s: u64) -> (r: u64)
    requires
        s < 32,
    ensures
        r == rotr32(x, s),
{
    if s == 0 {
        x
    } else {
        ((x >> s) | (x << (32 - s))) & MASK_32
    }
}

proof fn lemma_popcount_le(x: u64)
    ensures
        popcount(x) <= x,
    decreases x,
{
    if x != 0 {
        lemma_popcount_le((x / 2) as u64);
    }
}

pub fn count_ones(x: u64) -> (r: u64)
    ensures
        r == popcount(x),
{
    let mut y = x;
    let mut c: u64 = 0;
    proof {
        lemma_popcount_le(x);
    }
    while y != 0
        invariant
            c + popcount(y) == popcount(x),
            popcount(x) <= x,
        decreases y,
    {
        c = c + y % 2;
        y = y / 2;
    }
    c
}

pub fn reverse_bytes_exec(x: u64) -> (r: u64)
    ensures
        r == reverse_bytes(x),
{
    (((x >> 0u64) & 0xFF) << 56u64) | (((x >> 8u64) & 0xFF) << 48u64) | (((x >> 16u64) & 0xFF) << 40u64) | (((x >> 24u64) & 0xFF)
        << 32u64) | (((x >> 32u64) & 0xFF) << 24u64) | (((x >> 40u64) & 0xFF) << 16u64) | (((x >> 48u64) & 0xFF) << 8u64)
        | ((x >> 56u64) & 0xFF)
}

pub fn lt_signed(a: u64, b: u64) -> (r: bool)
    ensures
        r == (signed_of(a) < signed_of(b)),
{
    to_signed(a) < to_signed(b)
}

pub fn leading_zeros_64(x: u64) -> (r: u64)
    ensures
        r as int == u64_leading_zeros(x),
{
    x.leading_zeros() as u64
}

pub fn trailing_zeros_64(x: u64) -> (r: u64)
    ensures
        r == u64_trailing_zeros(x),
{
    x.trailing_zeros() as u64
}

} // verus!
