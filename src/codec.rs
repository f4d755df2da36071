//! The compact integer format and the program blob that uses it.
use vstd::prelude::*;

use crate::bitmask::{bytes_mark, BitMask};
use crate::program::Program;
use crate::utils::{decode_le, encode_le_bytes, le_bytes, le_value, lemma_pow256_values, pow256};

verus! {

/// Number of extra bytes announced by a first byte of 128..=254, and the
/// base of its prefix range.
pub open spec fn prefix_of(b0: u8) -> (usize, u8) {
    if b0 >= 254 {
        (7, 254)
    } else if b0 >= 252 {
        (6, 252)
    } else if b0 >= 248 {
        (5, 248)
    } else if b0 >= 240 {
        (4, 240)
    } else if b0 >= 224 {
        (3, 224)
    } else if b0 >= 192 {
        (2, 192)
    } else {
        (1, 128)
    }
}

/// The compact integer at the start of `s` and the number of bytes it takes,
/// or `None` when `s` is too short.
pub open spec fn compact_decode(s: Seq<u8>) -> Option<(u64, nat)> {
    if s.len() == 0 {
        None
    } else if s[0] < 128 {
        Some((s[0] as u64, 1))
    } else if s[0] == 255 {
        if s.len() < 9 {
            None
        } else {
            Some((le_value(s.subrange(1, 9)) as u64, 9))
        }
    } else {
        let (l, a) = prefix_of(s[0]);
        if s.len() < 1 + l {
            None
        } else {
            Some((((s[0] - a) * pow256(l as nat) + le_value(s.subrange(1, 1 + l as int))) as u64, (1 + l) as nat))
        }
    }
}

/// The number of extra bytes `l` of the shortest compact form of `x`
/// (`x < 2^(7(l+1))`), or 8 when `x` needs the nine-byte form.
pub open spec fn compact_len(x: u64) -> nat {
    if x < 0x80 {
        0
    } else if x < 0x4000 {
        1
    } else if x < 0x20_0000 {
        2
    } else if x < 0x1000_0000 {
        3
    } else if x < 0x8_0000_0000 {
        4
    } else if x < 0x400_0000_0000 {
        5
    } else if x < 0x2_0000_0000_0000 {
        6
    } else if x < 0x100_0000_0000_0000 {
        7
    } else {
        8
    }
}

/// The shortest compact form of `x`.
pub open spec fn compact_encode(x: u64) -> Seq<u8> {
    let l = compact_len(x);
    if l == 8 {
        seq![255u8] + le_bytes(x as nat, 8)
    } else {
        let p = pow256(l);
        seq![(prefix_base(l) + x as nat / p) as u8] + le_bytes(x as nat % p, l)
    }
}

/// First byte of the prefix range announcing `l` extra bytes (256 - 2^(8-l)).
pub open spec fn prefix_base(l: nat) -> nat {
    if l == 0 {
        0
    } else if l == 1 {
        128
    } else if l == 2 {
        192
    } else if l == 3 {
        224
    } else if l == 4 {
        240
    } else if l == 5 {
        248
    } else if l == 6 {
        252
    } else {
        254
    }
}

pub fn determine_l_and_a_l(byte0: u8) -> (r: (usize, u8))
    requires
        byte0 >= 128,
    ensures
        r == prefix_of(byte0),
{
    if byte0 >= 254 {
        (7, 254)
    } else if byte0 >= 252 {
        (6, 252)
    } else if byte0 >= 248 {
        (5, 248)
    } else if byte0 >= 240 {
        (4, 240)
    } else if byte0 >= 224 {
        (3, 224)
    } else if byte0 >= 192 {
        (2, 192)
    } else {
        (1, 128)
    }
}

fn pow256_exec(l: usize) -> (r: u64)
    requires
        l <= 7,
    ensures
        r == pow256(l as nat),
{
    proof {
        lemma_pow256_values();
    }
    match l {
        0 => 1,
        1 => 0x100,
        2 => 0x1_0000,
        3 => 0x100_0000,
        4 => 0x1_0000_0000,
        5 => 0x100_0000_0000,
        6 => 0x1_0000_0000_0000,
        _ => 0x100_0000_0000_0000,
    }
}

/// Decodes the compact integer at `pos`; returns it and the position after it.
pub fn decode_next_integer(bin: &[u8], pos: usize) -> (r: Option<(u64, usize)>)
    requires
        pos <= bin@.len(),
    ensures
        match (r, compact_decode(bin@.subrange(pos as int, bin@.len() as int))) {
            (Some((v, next)), Some((w, n))) => v == w && next == pos + n,
            (None, None) => true,
            _ => false,
        },
{
    let ghost s = bin@.subrange(pos as int, bin@.len() as int);
    if pos >= bin.len() {
        return None;
    }
    let b0 = bin[pos];
    if b0 < 128 {
        return Some((b0 as u64, pos + 1));
    }
    if b0 == 255 {
        if bin.len() - pos < 9 {
            return None;
        }
        let rest = vstd::slice::slice_subrange(bin, pos + 1, pos + 9);
        let value = decode_le(rest, 8);
        assert(rest@.subrange(0, 8) =~= s.subrange(1, 9));
        return Some((value, pos + 9));
    }
    let (l, a_l) = determine_l_and_a_l(b0);
    if bin.len() - pos < 1 + l {
        return None;
    }
    let rest = vstd::slice::slice_subrange(bin, pos + 1, pos + 1 + l);
    let x_rest = decode_le(rest, l);
    assert(rest@.subrange(0, l as int) =~= s.subrange(1, 1 + l as int));
    let h = (b0 - a_l) as u64;
    let p = pow256_exec(l);
    proof {
        lemma_pow256_values();
        crate::utils::lemma_le_value_bound(rest@.subrange(0, l as int));
        crate::utils::lemma_pow_mono(l as nat, 7);
        assert(h * p <= 127 * 0x100_0000_0000_0000) by (nonlinear_arith)
            requires
                h < 128,
                p <= 0x100_0000_0000_0000,
        ;
    }
    Some((h * p + x_rest, pos + 1 + l))
}

/// Reads `l` (at most 8) bytes at `pos`, least significant first.
pub fn decode_next_le(bin: &[u8], pos: usize, l: usize) -> (r: u64)
    requires
        l <= 8,
        pos + l <= bin@.len(),
        bin@.len() <= usize::MAX,
    ensures
        r as nat == le_value(bin@.subrange(pos as int, pos + l)),
{
    let part = vstd::slice::slice_subrange(bin, pos, pos + l);
    assert(part@.subrange(0, l as int) =~= part@);
    decode_le(part, l)
}

/// The jump table of `count` entries of `z` bytes each, starting at byte `at` of `s`.
pub open spec fn jump_entries(s: Seq<u8>, at: int, count: nat, z: nat) -> Seq<usize> {
    Seq::new(count, |i: int| le_value(s.subrange(at + i * z, at + i * z + z)) as u64 as usize)
}

/// Decodes `size` jump-table entries of `z` bytes each from `pos`.
pub fn decode_jump_table(bin: &[u8], pos: usize, size: usize, z: usize) -> (r: Vec<usize>)
    requires
        z <= 8,
        pos + size * z <= bin@.len(),
        bin@.len() <= usize::MAX,
    ensures
        r@ == jump_entries(bin@, pos as int, size as nat, z as nat),
{
    let mut values: Vec<usize> = Vec::new();
    let mut i: usize = 0;
    let mut at: usize = pos;
    while i < size
        invariant
            z <= 8,
            pos + size * z <= bin@.len(),
            bin@.len() <= usize::MAX,
            i <= size,
            at == pos + i * z,
            values@ == jump_entries(bin@, pos as int, size as nat, z as nat).subrange(0, i as int),
        decreases size - i,
    {
        proof {
            assert(at + z <= pos + size * z) by (nonlinear_arith)
                requires
                    at == pos + i * z,
                    i < size,
            ;
        }
        let value = decode_next_le(bin, at, z);
        values.push(value as usize);
        proof {
            assert((i + 1) * z == i * z + z) by (nonlinear_arith);
        }
        i = i + 1;
        at = at + z;
        assert(values@ =~= jump_entries(bin@, pos as int, size as nat, z as nat).subrange(0, i as int));
    }
    assert(values@ =~= jump_entries(bin@, pos as int, size as nat, z as nat));
    values
}

/// A program blob taken apart.
#[derive(Debug)]
pub struct Deblob {
    pub program: Program,
    pub bitmask: BitMask,
    pub jump_table: Vec<usize>,
}

#[derive(Debug, Clone, Copy, PartialEq, Eq, Structural)]
pub enum ProgramError {
    InvalidProgram,
}

/// The parts of a blob: code, jump table and raw bitmask bytes, or `None`
/// when the blob is malformed: truncated, jump entries wider than 8 bytes, or
/// more jump entries than bytes left.
pub open spec fn blob_parts(bin: Seq<u8>) -> Option<(Seq<u8>, Seq<usize>, Seq<u8>)> {
    match compact_decode(bin) {
        None => None,
        Some((jump_len, n1)) => if bin.len() < n1 + 1 {
            None
        } else {
            let z = bin[n1 as int];
            match compact_decode(bin.subrange(n1 as int + 1, bin.len() as int)) {
                None => None,
                Some((code_len, n2)) => {
                    let at: int = n1 as int + 1 + n2 as int;
                    if z > 8 || jump_len > bin.len() - at || at + jump_len * z + code_len > bin.len() {
                        None
                    } else {
                        let code_at = at + jump_len * z;
                        Some(
                            (
                                bin.subrange(code_at, code_at + code_len),
                                jump_entries(bin, at, jump_len as nat, z as nat),
                                bin.subrange(code_at + code_len, bin.len() as int),
                            ),
                        )
                    }
                },
            }
        },
    }
}

/// Takes a program blob apart: jump-table size, entry width and code length
/// (compact, one byte, compact), the entries, the code, then the bitmask bytes.
pub fn deblob(bin: &[u8]) -> (r: Result<Deblob, ProgramError>)
    requires
        bin@.len() <= usize::MAX / 128,
    ensures
        match (r, blob_parts(bin@)) {
            (Ok(d), Some((code, jt, bits))) => {
                &&& d.program.wf()
                &&& d.program.code() == code
                &&& d.jump_table@ == jt
                &&& d.bitmask.wf()
                &&& d.bitmask.limit == code.len()
                &&& forall|i: int| 0 <= i < code.len() ==> #[trigger] d.bitmask.is_set_at(i) == bytes_mark(bits, i)
            },
            (Err(e), None) => e == ProgramError::InvalidProgram,
            _ => false,
        },
{
    let (jump_len, pos) = match decode_next_integer(bin, 0) {
        Some(v) => v,
        None => return Err(ProgramError::InvalidProgram),
    };
    assert(bin@.subrange(0, bin@.len() as int) =~= bin@);
    if pos >= bin.len() {
        return Err(ProgramError::InvalidProgram);
    }
    let z = decode_next_le(bin, pos, 1);
    assert(le_value(bin@.subrange(pos as int, pos + 1)) == bin@[pos as int]) by {
        let t = bin@.subrange(pos as int, pos + 1);
        assert(t.drop_first() =~= Seq::<u8>::empty());
        reveal_with_fuel(le_value, 2);
    }
    let (prog_len, pos2) = match decode_next_integer(bin, pos + 1) {
        Some(v) => v,
        None => return Err(ProgramError::InvalidProgram),
    };
    proof {
        assert(bin@.subrange(pos + 1, bin@.len() as int) =~= bin@.subrange(pos + 1, bin@.len() as int));
    }
    if z > 8 {
        return Err(ProgramError::InvalidProgram);
    }
    let z = z as usize;
    let left = bin.len() - pos2;
    if jump_len > left as u64 {
        return Err(ProgramError::InvalidProgram);
    }
    let jl = jump_len as usize;
    proof {
        assert(jl * z <= 8 * left) by (nonlinear_arith)
            requires
                jl <= left,
                z <= 8,
        ;
    }
    if jl * z > left || prog_len > (left - jl * z) as u64 {
        return Err(ProgramError::InvalidProgram);
    }
    let jump_len = jump_len as usize;
    let prog_len = prog_len as usize;
    let jump_table = decode_jump_table(bin, pos2, jump_len, z);
    let code_at = pos2 + jump_len * z;
    let code = vstd::slice::slice_subrange(bin, code_at, code_at + prog_len);
    let bitmask_bytes = vstd::slice::slice_subrange(bin, code_at + prog_len, bin.len());
    let program = Program::new(code);
    let bitmask = BitMask::from_bytes(bitmask_bytes, prog_len);
    Ok(Deblob { program, bitmask, jump_table })
}

/// The jump-table entries, `z` bytes each.
pub open spec fn entries_bytes(jt: Seq<usize>, z: nat) -> Seq<u8>
    decreases jt.len(),
{
    if jt.len() == 0 {
        Seq::empty()
    } else {
        entries_bytes(jt.drop_last(), z) + le_bytes(jt.last() as nat, z)
    }
}

/// The blob holding `program`, `bitmask_bytes` and `jump_table` with entries of `z` bytes.
pub open spec fn blob_encode(program: Seq<u8>, bitmask_bytes: Seq<u8>, jump_table: Seq<usize>, z: u64) -> Seq<u8> {
    compact_encode(jump_table.len() as u64) + seq![z as u8] + compact_encode(program.len() as u64)
        + entries_bytes(jump_table, z as nat) + program + bitmask_bytes
}

/// The low `l` (at most 8) bytes of `n`, least significant first.
pub fn encode_le(n: u64, l: usize) -> (r: Vec<u8>)
    requires
        l <= 8,
    ensures
        r@ == le_bytes(n as nat, l as nat),
{
    encode_le_bytes(n, l)
}

/// Number of extra bytes of the shortest compact form of `x`, or `None`
/// when `x` needs the nine-byte form.
pub fn exists_l_in_n8(x: u64) -> (r: Option<usize>)
    ensures
        r == if compact_len(x) == 8 {
            None::<usize>
        } else {
            Some(compact_len(x) as usize)
        },
{
    if x < 0x80 {
        Some(0)
    } else if x < 0x4000 {
        Some(1)
    } else if x < 0x20_0000 {
        Some(2)
    } else if x < 0x1000_0000 {
        Some(3)
    } else if x < 0x8_0000_0000 {
        Some(4)
    } else if x < 0x400_0000_0000 {
        Some(5)
    } else if x < 0x2_0000_0000_0000 {
        Some(6)
    } else if x < 0x100_0000_0000_0000 {
        Some(7)
    } else {
        None
    }
}

fn prefix_base_exec(l: usize) -> (r: u64)
    requires
        l <= 7,
    ensures
        r == prefix_base(l as nat),
{
    match l {
        0 => 0,
        1 => 128,
        2 => 192,
        3 => 224,
        4 => 240,
        5 => 248,
        6 => 252,
        _ => 254,
    }
}

/// Appends the shortest compact form of `x` to `out`.
pub fn encode_integer(x: u64, out: &mut Vec<u8>)
    ensures
        final(out)@ == old(out)@ + compact_encode(x),
{
    proof {
        lemma_pow256_values();
    }
    match exists_l_in_n8(x) {
        Some(l) => {
            let p = pow256_exec(l);
            let marker = prefix_base_exec(l) + x / p;
            out.push(marker as u8);
            let rest = encode_le(x % p, l);
            let ghost before = out@;
            out.extend_from_slice(rest.as_slice());
            assert(out@ =~= before + rest@);
        },
        None => {
            out.push(255u8);
            let rest = encode_le(x, 8);
            let ghost before = out@;
            out.extend_from_slice(rest.as_slice());
            assert(out@ =~= before + rest@);
        },
    }
    assert(final(out)@ =~= old(out)@ + compact_encode(x));
}

/// Builds a program blob: jump-table size, entry width `z` and code length,
/// then the entries of `z` bytes each, the code and the bitmask bytes.
pub fn encode_program(program: &[u8], bitmask_bytes: &[u8], jump_table: &[usize], z: u64) -> (r: Vec<u8>)
    requires
        z <= 8,
    ensures
        r@ == blob_encode(program@, bitmask_bytes@, jump_table@, z),
{
    let mut encoded: Vec<u8> = Vec::new();
    encode_integer(jump_table.len() as u64, &mut encoded);
    encoded.push(z as u8);
    encode_integer(program.len() as u64, &mut encoded);
    let ghost head = encoded@;
    let mut i: usize = 0;
    while i < jump_table.len()
        invariant
            z <= 8,
            i <= jump_table@.len(),
            encoded@ == head + entries_bytes(jump_table@.subrange(0, i as int), z as nat),
        decreases jump_table@.len() - i,
    {
        let le_bytes_of = encode_le(jump_table[i] as u64, z as usize);
        encoded.extend_from_slice(le_bytes_of.as_slice());
        proof {
            let t = jump_table@.subrange(0, i + 1);
            assert(t.drop_last() =~= jump_table@.subrange(0, i as int));
        }
        i = i + 1;
        assert(encoded@ =~= head + entries_bytes(jump_table@.subrange(0, i as int), z as nat));
    }
    encoded.extend_from_slice(program);
    encoded.extend_from_slice(bitmask_bytes);
    assert(jump_table@.subrange(0, jump_table@.len() as int) =~= jump_table@);
    assert(encoded@ =~= blob_encode(program@, bitmask_bytes@, jump_table@, z));
    encoded
}

pub proof fn lemma_le_value_of_bytes(v: nat, n: nat)
    ensures
        le_bytes(v, n).len() == n,
        le_value(le_bytes(v, n)) == v % pow256(n),
    decreases n,
{
    if n > 0 {
        lemma_le_value_of_bytes(v / 256, (n - 1) as nat);
        let t = le_bytes(v, n);
        assert(t.drop_first() =~= le_bytes(v / 256, (n - 1) as nat));
        let p = pow256((n - 1) as nat);
        assert(p > 0) by {
            crate::utils::lemma_pow_mono(0, (n - 1) as nat);
        }
        vstd::arithmetic::div_mod::lemma_breakdown(v as int, 256, p as int);
    }
}

proof fn lemma_div_below(x: nat, p: nat, k: nat)
    requires
        p > 0,
        x < k * p,
    ensures
        x / p < k,
        p == 1 ==> x / p == x,
{
    assert(x / p < k) by (nonlinear_arith)
        requires
            p > 0,
            x < k * p,
    ;
    if p == 1 {
        vstd::arithmetic::div_mod::lemma_div_basics(x as int);
    }
}

/// Decoding the compact form of `x`, whatever follows it, gives back `x`
/// and the length of that form.
pub proof fn lemma_compact_round_trip(x: u64, rest: Seq<u8>)
    ensures
        compact_encode(x).len() == compact_len(x) + 1,
        compact_decode(compact_encode(x) + rest) == Some((x, (compact_len(x) + 1) as nat)),
{
    lemma_pow256_values();
    let l = compact_len(x);
    let e = compact_encode(x);
    let s = e + rest;
    if l == 8 {
        lemma_le_value_of_bytes(x as nat, 8);
        assert(s.subrange(1, 9) =~= le_bytes(x as nat, 8));
    } else {
        let p = pow256(l);
        lemma_le_value_of_bytes(x as nat % p, l);
        let h = x as nat / p;
        assert(s[0] == (prefix_base(l) + h) as u8);
        assert(s.subrange(1, 1 + l as int) =~= le_bytes(x as nat % p, l));
        vstd::arithmetic::div_mod::lemma_fundamental_div_mod(x as int, p as int);
        vstd::arithmetic::div_mod::lemma_mod_mod(x as int, p as int, 1);
        if l == 0 {
            lemma_div_below(x as nat, p, 128);
        } else if l == 1 {
            lemma_div_below(x as nat, p, 64);
        } else if l == 2 {
            lemma_div_below(x as nat, p, 32);
        } else if l == 3 {
            lemma_div_below(x as nat, p, 16);
        } else if l == 4 {
            lemma_div_below(x as nat, p, 8);
        } else if l == 5 {
            lemma_div_below(x as nat, p, 4);
        } else if l == 6 {
            lemma_div_below(x as nat, p, 2);
        } else {
            lemma_div_below(x as nat, p, 1);
        }
        assert((x as nat % p) % p == x as nat % p) by {
            vstd::arithmetic::div_mod::lemma_mod_twice(x as int, p as int);
        }
        assert(h * p + x as nat % p == x) by (nonlinear_arith)
            requires
                x == p * h + x as nat % p,
        ;
    }
}

/// The entry bytes hold entry `i` at offset `i * z`.
pub proof fn lemma_entries_layout(jt: Seq<usize>, z: nat, i: int)
    requires
        0 <= i < jt.len(),
    ensures
        entries_bytes(jt, z).len() == jt.len() * z,
        entries_bytes(jt, z).subrange(i * z, i * z + z) == le_bytes(jt[i] as nat, z),
    decreases jt.len(),
{
    let init = jt.drop_last();
    crate::utils::lemma_le_bytes_len(jt.last() as nat, z);
    if i < jt.len() - 1 {
        lemma_entries_layout(init, z, i);
        let e = entries_bytes(init, z);
        assert((i + 1) * z <= init.len() * z) by (nonlinear_arith)
            requires
                i + 1 <= init.len(),
        ;
        assert(i * z + z == (i + 1) * z) by (nonlinear_arith);
        assert(entries_bytes(jt, z).subrange(i * z, i * z + z) =~= e.subrange(i * z, i * z + z));
    } else {
        if init.len() > 0 {
            lemma_entries_layout(init, z, 0);
        }
        assert(entries_bytes(init, z).len() == init.len() * z);
        assert(i * z == init.len() * z);
        assert(entries_bytes(jt, z).subrange(i * z, i * z + z) =~= le_bytes(jt[i] as nat, z));
    }
    assert(entries_bytes(jt, z).len() == jt.len() * z) by {
        if init.len() > 0 {
            lemma_entries_layout(init, z, 0);
        }
        assert((init.len() + 1) * z == init.len() * z + z) by (nonlinear_arith);
    }
}

/// Encoding a program, its bitmask bytes and a jump table with entries of
/// `z` bytes, then taking the blob apart, gives back all three. Entries must
/// fit in `z` bytes, and `z` must be 1 to 8 unless the table is empty.
pub proof fn lemma_blob_round_trip(program: Seq<u8>, bitmask_bytes: Seq<u8>, jump_table: Seq<usize>, z: u64)
    requires
        z <= 8,
        z >= 1 || jump_table.len() == 0,
        program.len() <= u64::MAX,
        jump_table.len() <= u64::MAX,
        forall|i: int| 0 <= i < jump_table.len() ==> (#[trigger] jump_table[i] as nat) < pow256(z as nat),
    ensures
        blob_parts(blob_encode(program, bitmask_bytes, jump_table, z)) == Some((program, jump_table, bitmask_bytes)),
{
    let a = compact_encode(jump_table.len() as u64);
    let b = compact_encode(program.len() as u64);
    let e = entries_bytes(jump_table, z as nat);
    let bin = blob_encode(program, bitmask_bytes, jump_table, z);
    let zn = z as nat;
    let jl = jump_table.len() as int;
    lemma_compact_round_trip(jump_table.len() as u64, seq![z as u8] + b + e + program + bitmask_bytes);
    assert(bin =~= a + (seq![z as u8] + b + e + program + bitmask_bytes));
    let n1 = a.len() as int;
    assert(bin[n1] == z as u8);
    lemma_compact_round_trip(program.len() as u64, e + program + bitmask_bytes);
    assert(bin.subrange(n1 + 1, bin.len() as int) =~= b + (e + program + bitmask_bytes));
    let at = n1 + 1 + b.len();
    if jl > 0 {
        lemma_entries_layout(jump_table, zn, 0);
    }
    assert(e.len() == jl * zn);
    assert(jl <= jl * zn) by (nonlinear_arith)
        requires
            zn >= 1 || jl == 0,
            jl >= 0,
    ;
    let code_at = at + jl * zn;
    assert(bin.subrange(code_at, code_at + program.len()) =~= program);
    assert(bin.subrange(code_at + program.len(), bin.len() as int) =~= bitmask_bytes);
    assert forall|i: int| 0 <= i < jl implies #[trigger] jump_entries(bin, at, jl as nat, zn)[i] == jump_table[i] by {
        lemma_entries_layout(jump_table, zn, i);
        assert(i * zn + zn <= jl * zn) by (nonlinear_arith)
            requires
                i < jl,
        ;
        assert(0 <= i * zn) by (nonlinear_arith)
            requires
                0 <= i,
        ;
        assert(bin.subrange(at + i * zn, at + i * zn + zn) =~= e.subrange(i * zn, i * zn + zn));
        lemma_le_value_of_bytes(jump_table[i] as nat, zn);
        vstd::arithmetic::div_mod::lemma_small_mod(jump_table[i] as nat, pow256(zn));
    }
    assert(jump_entries(bin, at, jl as nat, zn) =~= jump_table);
}

} // verus!
