//! Little-endian decoding of operands and two's-complement helpers.
use vstd::prelude::*;

use crate::program::Program;

verus! {

/// Value of bytes read least significant first.
pub open spec fn le_value(bytes: Seq<u8>) -> nat
    decreases bytes.len(),
{
    if bytes.len() == 0 {
        0
    } else {
        bytes[0] as nat + 256 * le_value(bytes.drop_first())
    }
}

/// 256^n, the number of values of `n` bytes.
pub open spec fn pow256(n: nat) -> nat
    decreases n,
{
    if n == 0 {
        1
    } else {
        256 * pow256((n - 1) as nat)
    }
}

/// The value of a word read as a 64-bit two's-complement integer.
pub open spec fn signed_of(x: u64) -> int {
    if x < 0x8000_0000_0000_0000 {
        x as int
    } else {
        x as int - 0x1_0000_0000_0000_0000
    }
}

/// The 64-bit two's-complement word of an integer (taken modulo 2^64).
pub open spec fn word_of(i: int) -> u64 {
    (i % 0x1_0000_0000_0000_0000) as u64
}

/// The low `n` bytes of `x` sign-extended to 64 bits; `n` of 0 or 8 keeps `x`.
pub open spec fn sign_extend_spec(x: u64, n: nat) -> u64 {
    if n == 0 || n >= 8 {
        x
    } else {
        let m = pow256(n) as int;
        let low = x as int % m;
        if low >= m / 2 {
            (low + 0x1_0000_0000_0000_0000 - m) as u64
        } else {
            low as u64
        }
    }
}

pub proof fn lemma_pow256_values()
    ensures
        pow256(0) == 1,
        pow256(1) == 0x100,
        pow256(2) == 0x1_0000,
        pow256(3) == 0x100_0000,
        pow256(4) == 0x1_0000_0000,
        pow256(5) == 0x100_0000_0000,
        pow256(6) == 0x1_0000_0000_0000,
        pow256(7) == 0x100_0000_0000_0000,
        pow256(8) == 0x1_0000_0000_0000_0000,
{
    reveal_with_fuel(pow256, 9);
}

pub proof fn lemma_le_value_bound(bytes: Seq<u8>)
    ensures
        le_value(bytes) < pow256(bytes.len()),
    decreases bytes.len(),
{
    if bytes.len() > 0 {
        lemma_le_value_bound(bytes.drop_first());
        let a = bytes[0] as nat;
        let b = le_value(bytes.drop_first());
        let p = pow256((bytes.len() - 1) as nat);
        assert(a + 256 * b < 256 * p) by (nonlinear_arith)
            requires
                a < 256,
                b < p,
        ;
    }
}

/// Sign-extends the low `n` bytes of `x` to 64 bits.
pub fn sign_extend(x: u64, n: usize) -> (r: u64)
    requires
        n <= 8,
    ensures
        r == sign_extend_spec(x, n as nat),
{
    proof {
        lemma_pow256_values();
    }
    let m: u64 = match n {
        1 => 0x100,
        2 => 0x1_0000,
        3 => 0x100_0000,
        4 => 0x1_0000_0000,
        5 => 0x100_0000_0000,
        6 => 0x1_0000_0000_0000,
        7 => 0x100_0000_0000_0000,
        _ => return x,
    };
    let low = x % m;
    if low >= m / 2 {
        low + (u64::MAX - m + 1)
    } else {
        low
    }
}

/// Reads a word as a signed 64-bit integer.
pub fn to_signed(x: u64) -> (r: i64)
    ensures
        r as int == signed_of(x),
{
    if x < 0x8000_0000_0000_0000 {
        x as i64
    } else {
        let m = (u64::MAX - x) as i64;
        -m - 1
    }
}

/// The low `num_bytes` bytes of `x`, sign-extended, as a signed integer.
pub fn unsigned_to_signed(x: u64, num_bytes: usize) -> (r: i64)
    requires
        num_bytes <= 8,
    ensures
        r as int == signed_of(sign_extend_spec(x, num_bytes as nat)),
{
    to_signed(sign_extend(x, num_bytes))
}

/// The `count` (at most 8) code bytes from `start`, least significant first.
pub fn decode_bytes(program: &Program, start_index: usize, count: usize) -> (r: u64)
    requires
        program.wf(),
        start_index + (if count < 8 { count } else { 8 }) <= program.program@.len(),
    ensures
        r as nat == le_value(
            program.program@.subrange(
                start_index as int,
                start_index + (if count < 8 { count } else { 8 }),
            ),
        ),
{
    let count: usize = if count < 8 { count } else { 8 };
    let ghost s = program.program@.subrange(start_index as int, start_index + count);
    let mut x: u64 = 0;
    let mut i: usize = count;
    proof {
        lemma_pow256_values();
        assert(s.subrange(count as int, count as int) =~= Seq::<u8>::empty());
    }
    while i > 0
        invariant
            count <= 8,
            i <= count,
            program.wf(),
            start_index + count <= program.program@.len(),
            s == program.program@.subrange(start_index as int, start_index + count),
            x as nat == le_value(s.subrange(i as int, count as int)),
            pow256(8) == 0x1_0000_0000_0000_0000,
        decreases i,
    {
        let b = program.at(start_index + (i - 1));
        proof {
            let t = s.subrange(i - 1, count as int);
            assert(t.drop_first() =~= s.subrange(i as int, count as int));
            lemma_le_value_bound(t);
            assert(t.len() <= 8);
            lemma_pow_mono(t.len(), 8);
        }
        x = b as u64 + 256 * x;
        i = i - 1;
    }
    assert(s.subrange(0, count as int) =~= s);
    x
}

pub proof fn lemma_pow_mono(a: nat, b: nat)
    requires
        a <= b,
    ensures
        pow256(a) <= pow256(b),
    decreases b,
{
    if a < b {
        lemma_pow_mono(a, (b - 1) as nat);
    }
}

/// Reads `count` (at most 8) code bytes from `start_index` and sign-extends them.
pub fn decode_and_extend(program: &Program, start_index: usize, count: usize) -> (r: u64)
    requires
        program.wf(),
        count <= 8,
        start_index + count <= program.program@.len(),
    ensures
        r == sign_extend_spec(
            le_value(program.program@.subrange(start_index as int, start_index + count)) as u64,
            count as nat,
        ),
{
    let x = decode_bytes(program, start_index, count);
    sign_extend(x, count)
}

/// The low `n` bytes of `x`, least significant first.
pub open spec fn le_bytes(x: nat, n: nat) -> Seq<u8>
    decreases n,
{
    if n == 0 {
        Seq::empty()
    } else {
        seq![(x % 256) as u8] + le_bytes(x / 256, (n - 1) as nat)
    }
}

pub proof fn lemma_le_bytes_len(x: nat, n: nat)
    ensures
        le_bytes(x, n).len() == n,
    decreases n,
{
    if n > 0 {
        lemma_le_bytes_len(x / 256, (n - 1) as nat);
    }
}

/// The low `n` (at most 8) bytes of `x`, least significant first.
pub fn encode_le_bytes(x: u64, n: usize) -> (r: Vec<u8>)
    requires
        n <= 8,
    ensures
        r@ == le_bytes(x as nat, n as nat),
{
    let mut out: Vec<u8> = Vec::new();
    let mut y = x;
    let mut i: usize = 0;
    while i < n
        invariant
            i <= n,
            out@ + le_bytes(y as nat, (n - i) as nat) == le_bytes(x as nat, n as nat),
        decreases n - i,
    {
        let ghost rest = le_bytes((y / 256) as nat, (n - i - 1) as nat);
        assert(le_bytes(y as nat, (n - i) as nat) == seq![(y % 256) as u8] + rest);
        out.push((y % 256) as u8);
        y = y / 256;
        i = i + 1;
        assert(out@ + rest =~= le_bytes(x as nat, n as nat));
    }
    assert(out@ + le_bytes(y as nat, 0) =~= out@);
    out
}

/// Reads the first `l` (at most 8) bytes of `bin`, least significant first.
pub fn decode_le(bin: &[u8], l: usize) -> (r: u64)
    requires
        l <= 8,
        l <= bin@.len(),
    ensures
        r as nat == le_value(bin@.subrange(0, l as int)),
{
    let ghost s = bin@.subrange(0, l as int);
    let mut x: u64 = 0;
    let mut i: usize = l;
    proof {
        lemma_pow256_values();
        assert(s.subrange(l as int, l as int) =~= Seq::<u8>::empty());
    }
    while i > 0
        invariant
            l <= 8,
            i <= l,
            l <= bin@.len(),
            s == bin@.subrange(0, l as int),
            x as nat == le_value(s.subrange(i as int, l as int)),
            pow256(8) == 0x1_0000_0000_0000_0000,
        decreases i,
    {
        let b = bin[i - 1];
        proof {
            let t = s.subrange(i - 1, l as int);
            assert(t.drop_first() =~= s.subrange(i as int, l as int));
            lemma_le_value_bound(t);
            lemma_pow_mono(t.len(), 8);
        }
        x = b as u64 + 256 * x;
        i = i - 1;
    }
    assert(s.subrange(0, l as int) =~= s);
    x
}

} // verus!
