//! Reading the program blob header and laying out the initial address space.
use vstd::prelude::*;

use crate::consts::{LAYOUT_BUFFER_SIZE, MEMORY_SIZE, MIN_ADDR, PAGE_SIZE};
use crate::memory::{pages_end, spliced, Memory, MemoryBuilder, Permission};
use crate::registers::Registers;
use crate::utils::le_value;

verus! {

/// The sections of a program blob.
pub struct ProgramSegments<'a> {
    pub program_text: &'a [u8],
    pub data: &'a [u8],
    pub z: usize,
    pub s: usize,
    pub code: &'a [u8],
}

#[derive(Debug, Clone, Copy, PartialEq, Eq, Structural)]
pub enum SegmentError {
    /// Fewer bytes than the fixed header.
    InsufficientBytes,
    /// A section runs past the end of the blob.
    InvalidProgram,
}

/// Little-endian value of `p[at..at + n]`.
pub open spec fn field(p: Seq<u8>, at: int, n: int) -> nat {
    le_value(p.subrange(at, at + n))
}

/// `x` rounded up to a multiple of `m`.
pub open spec fn align_up(x: int, m: int) -> int {
    (x + m - 1) / m * m
}

pub fn align_to_min_addr(x: usize) -> (r: usize)
    requires
        x + 0xFFFF <= usize::MAX,
    ensures
        r == align_up(x as int, MIN_ADDR as int),
{
    (x + (MIN_ADDR - 1)) / MIN_ADDR * MIN_ADDR
}

pub fn align_to_page_size(x: usize) -> (r: usize)
    requires
        x + 0xFFFF <= usize::MAX,
    ensures
        r == align_up(x as int, PAGE_SIZE as int),
{
    (x + (PAGE_SIZE - 1)) / PAGE_SIZE * PAGE_SIZE
}

fn read_le(p: &[u8], at: usize, n: usize) -> (r: usize)
    requires
        n <= 4,
        at + n <= p@.len(),
        p@.len() <= usize::MAX,
    ensures
        r == field(p@, at as int, n as int),
        r < 0x1_0000_0000,
{
    let part = vstd::slice::slice_subrange(p, at, at + n);
    let v = crate::utils::decode_le(part, n);
    assert(part@.subrange(0, n as int) =~= part@);
    proof {
        crate::utils::lemma_le_value_bound(part@);
        crate::utils::lemma_pow_mono(n as nat, 4);
        crate::utils::lemma_pow256_values();
    }
    v as usize
}

/// Offsets of the blob sections: text size, data size, extra heap pages,
/// stack size, then the code size read behind text and data.
pub open spec fn o_size(p: Seq<u8>) -> int {
    field(p, 0, 3) as int
}

pub open spec fn w_size(p: Seq<u8>) -> int {
    field(p, 3, 3) as int
}

pub open spec fn c_size(p: Seq<u8>) -> int {
    field(p, 11 + o_size(p) + w_size(p), 4) as int
}

/// Splits a blob into its sections: a header `o:3, w:3, z:2, s:3`, then `o`
/// bytes of text, `w` bytes of data, `c:4` and `c` bytes of code.
pub fn parse_program_segments<'a>(program: &'a [u8]) -> (r: Result<ProgramSegments<'a>, SegmentError>)
    requires
        program@.len() <= usize::MAX,
    ensures
        program@.len() < 15 ==> r == Err::<ProgramSegments<'a>, SegmentError>(SegmentError::InsufficientBytes),
        program@.len() >= 15 ==> {
            let o = o_size(program@);
            let w = w_size(program@);
            if program@.len() < 15 + o + w || program@.len() < 15 + o + w + c_size(program@) {
                r == Err::<ProgramSegments<'a>, SegmentError>(SegmentError::InvalidProgram)
            } else {
                let c = c_size(program@);
                &&& r is Ok
                &&& r->Ok_0.program_text@ == program@.subrange(11, 11 + o)
                &&& r->Ok_0.data@ == program@.subrange(11 + o, 11 + o + w)
                &&& r->Ok_0.z == field(program@, 6, 2)
                &&& r->Ok_0.s == field(program@, 8, 3)
                &&& r->Ok_0.code@ == program@.subrange(15 + o + w, 15 + o + w + c)
            }
        },
{
    if program.len() < 15 {
        return Err(SegmentError::InsufficientBytes);
    }
    let o_size = read_le(program, 0, 3);
    let w_size = read_le(program, 3, 3);
    let z = read_le(program, 6, 2);
    let s = read_le(program, 8, 3);
    let offset: usize = 11;
    if program.len() - offset < o_size || program.len() - offset - o_size < w_size
        || program.len() - offset - o_size - w_size < 4 {
        return Err(SegmentError::InvalidProgram);
    }
    let o = vstd::slice::slice_subrange(program, offset, offset + o_size);
    let offset = offset + o_size;
    let w = vstd::slice::slice_subrange(program, offset, offset + w_size);
    let offset = offset + w_size;
    let c_size = read_le(program, offset, 4);
    let offset = offset + 4;
    if program.len() - offset < c_size {
        return Err(SegmentError::InvalidProgram);
    }
    let c = vstd::slice::slice_subrange(program, offset, offset + c_size);
    Ok(ProgramSegments { program_text: o, data: w, z, s, code: c })
}

pub open spec fn data_region_start(o: int) -> int {
    2 * MIN_ADDR + align_up(o, MIN_ADDR as int)
}

pub open spec fn data_len(w: int, z: int) -> int {
    align_up(w, PAGE_SIZE as int) + z * PAGE_SIZE
}

pub open spec fn stack_region_start(s: int) -> int {
    MEMORY_SIZE - 2 * MIN_ADDR - LAYOUT_BUFFER_SIZE - align_up(s, PAGE_SIZE as int)
}

pub open spec fn args_region_start() -> int {
    MEMORY_SIZE - MIN_ADDR - LAYOUT_BUFFER_SIZE
}

/// Whether the regions of text `o`, data `w` with `z` extra pages, stack `s`
/// and arguments `a` bytes fit the address space.
pub open spec fn layout_fits(o: int, w: int, z: int, s: int, a: int) -> bool {
    &&& 0 <= o && 0 <= w && 0 <= z && 0 <= s && 0 <= a
    &&& align_up(o, MIN_ADDR as int) + align_up(w + z * PAGE_SIZE, MIN_ADDR as int) + align_up(s, MIN_ADDR as int)
        <= MEMORY_SIZE - 5 * MIN_ADDR - LAYOUT_BUFFER_SIZE
    &&& a <= MIN_ADDR + LAYOUT_BUFFER_SIZE
}

/// Whether page `page` is touched by `[start, start + len)`.
pub open spec fn in_region(page: int, start: int, len: int) -> bool {
    start / 0x1000 <= page < pages_end(start, len)
}

/// Permission bits of `page` in the initial layout: read-only text and
/// arguments, read-write data and stack, nothing elsewhere.
pub open spec fn layout_perm(page: int, o: int, w: int, z: int, s: int, a: int) -> u64 {
    if in_region(page, args_region_start(), align_up(a, PAGE_SIZE as int)) {
        1
    } else if in_region(page, stack_region_start(s), align_up(s, PAGE_SIZE as int)) {
        3
    } else if in_region(page, data_region_start(o), data_len(w, z)) {
        3
    } else if in_region(page, MIN_ADDR as int, align_up(o, PAGE_SIZE as int)) {
        1
    } else {
        0
    }
}

/// `m` holds the initial layout of text, data (with `z` extra pages), a stack
/// of `s` bytes and the arguments: contents, permissions and heap bounds.
pub open spec fn initial_memory(m: &Memory, text: Seq<u8>, data: Seq<u8>, z: int, s: int, args: Seq<u8>) -> bool {
    let o = text.len() as int;
    let w = data.len() as int;
    let a = args.len() as int;
    &&& m.wf()
    &&& m.bytes().len() == MEMORY_SIZE
    &&& m.bytes().subrange(MIN_ADDR as int, MIN_ADDR + o) == text
    &&& m.bytes().subrange(data_region_start(o), data_region_start(o) + w) == data
    &&& m.bytes().subrange(args_region_start(), args_region_start() + a) == args
    &&& forall|page: int|
        0 <= page < 32 * m.access@.len() ==> #[trigger] m.perm(page) == layout_perm(page, o, w, z, s, a)
    &&& m.current_heap_pointer == data_region_start(o) + data_len(w, z)
    &&& m.max_heap_pointer == stack_region_start(s)
}

/// The initial registers for `a` bytes of arguments.
pub open spec fn initial_registers(a: nat) -> Seq<u64> {
    seq![0xFFFF_0000u64, 0xFEFE_0000u64, 0u64, 0u64, 0u64, 0u64, 0u64, 0xFEFF_0000u64, a as u64, 0u64, 0u64, 0u64, 0u64]
}

/// Whether the blob's sections all lie inside it.
pub open spec fn segments_ok(p: Seq<u8>) -> bool {
    &&& p.len() >= 15
    &&& p.len() >= 15 + o_size(p) + w_size(p)
    &&& p.len() >= 15 + o_size(p) + w_size(p) + c_size(p)
}

/// Whether the blob's regions and `a` bytes of arguments fit the address space.
pub open spec fn blob_fits(p: Seq<u8>, a: int) -> bool {
    layout_fits(o_size(p), w_size(p), field(p, 6, 2) as int, field(p, 8, 3) as int, a)
}

pub proof fn lemma_splice_parts(s: Seq<u8>, at: int, d: Seq<u8>, x: int, y: int)
    requires
        0 <= at,
        at + d.len() <= s.len(),
        0 <= x <= y <= s.len(),
    ensures
        spliced(s, at, d).len() == s.len(),
        (x == at && y == at + d.len()) ==> spliced(s, at, d).subrange(x, y) == d,
        (y <= at || at + d.len() <= x) ==> spliced(s, at, d).subrange(x, y) == s.subrange(x, y),
{
    let t = spliced(s, at, d);
    assert(t.len() == s.len());
    if x == at && y == at + d.len() {
        assert(t.subrange(x, y) =~= d);
    }
    if y <= at || at + d.len() <= x {
        assert(t.subrange(x, y) =~= s.subrange(x, y));
    }
}

proof fn lemma_align_facts(x: int)
    requires
        0 <= x,
    ensures
        x <= align_up(x, PAGE_SIZE as int) <= align_up(x, MIN_ADDR as int),
        align_up(x, PAGE_SIZE as int) % (PAGE_SIZE as int) == 0,
        x <= align_up(x, MIN_ADDR as int) < x + MIN_ADDR,
{
}

/// Builds the initial address space in a fresh map: text at `MIN_ADDR`, data
/// after it, the stack and the arguments at the top, with their permissions,
/// and the heap from the end of the data to the stack. `None` exactly when
/// the 4 GiB map cannot be created; otherwise the result is `lay_out`'s.
pub fn construct_memory<'a>(program_segments: &'a ProgramSegments<'a>, args: &'a [u8]) -> (r: Option<Memory>)
    requires
        layout_fits(
            program_segments.program_text@.len() as int,
            program_segments.data@.len() as int,
            program_segments.z as int,
            program_segments.s as int,
            args@.len() as int,
        ),
    ensures
        r matches Some(m) ==> initial_memory(
            &m,
            program_segments.program_text@,
            program_segments.data@,
            program_segments.z as int,
            program_segments.s as int,
            args@,
        ),
{
    match Memory::builder() {
        Some(builder) => Some(lay_out(builder, program_segments, args)),
        None => None,
    }
}

/// Lays out the initial address space in a mapped, still inaccessible 4 GiB
/// memory: text at `MIN_ADDR`, data after it, the stack and the arguments at
/// the top, with their permissions, and the heap from the end of the data to
/// the stack.
pub fn lay_out<'a>(builder: MemoryBuilder, program_segments: &'a ProgramSegments<'a>, args: &'a [u8]) -> (r: Memory)
    requires
        builder.memory.wf(),
        builder.memory.bytes().len() == MEMORY_SIZE,
        forall|page: int|
            0 <= page < 32 * builder.memory.access@.len() ==> #[trigger] builder.memory.perm(page) == 0,
        layout_fits(
            program_segments.program_text@.len() as int,
            program_segments.data@.len() as int,
            program_segments.z as int,
            program_segments.s as int,
            args@.len() as int,
        ),
    ensures
        initial_memory(
            &r,
            program_segments.program_text@,
            program_segments.data@,
            program_segments.z as int,
            program_segments.s as int,
            args@,
        ),
{
    let mut builder = builder;
    let ghost minit = builder.memory;
    let program_text = program_segments.program_text;
    let data = program_segments.data;
    let z = program_segments.z;
    let s = program_segments.s;
    let ghost o_len = program_text@.len() as int;
    let ghost w_len = data@.len() as int;
    proof {
        lemma_align_facts(o_len);
        lemma_align_facts(w_len);
        lemma_align_facts(w_len + z * PAGE_SIZE);
        lemma_align_facts(s as int);
        lemma_align_facts(args@.len() as int);
        assert(align_up(w_len, PAGE_SIZE as int) + z * PAGE_SIZE == align_up(w_len + z * PAGE_SIZE, PAGE_SIZE as int));
    }
    let prog_start = MIN_ADDR;
    let prog_region_len = align_to_page_size(program_text.len());
    let data_start = 2 * MIN_ADDR + align_to_min_addr(program_text.len());
    let data_region_len = align_to_page_size(data.len()) + z * PAGE_SIZE;
    let heap_start = data_start + data_region_len;
    let stack_len = align_to_page_size(s);
    let stack_start = (MEMORY_SIZE as usize) - 2 * MIN_ADDR - LAYOUT_BUFFER_SIZE - stack_len;
    let heap_end = stack_start;
    let args_start = (MEMORY_SIZE as usize) - MIN_ADDR - LAYOUT_BUFFER_SIZE;
    let args_region_len = align_to_page_size(args.len());
    let ghost b0 = builder.memory.bytes();
    builder.copy_in(prog_start, program_text);
    let ghost b1 = builder.memory.bytes();
    builder.copy_in(data_start, data);
    let ghost b2 = builder.memory.bytes();
    builder.copy_in(args_start, args);
    let ghost b3 = builder.memory.bytes();
    proof {
        let a_len = args@.len() as int;
        lemma_splice_parts(b0, prog_start as int, program_text@, prog_start as int, prog_start + o_len);
        lemma_splice_parts(b1, data_start as int, data@, prog_start as int, prog_start + o_len);
        lemma_splice_parts(b1, data_start as int, data@, data_start as int, data_start + w_len);
        lemma_splice_parts(b2, args_start as int, args@, prog_start as int, prog_start + o_len);
        lemma_splice_parts(b2, args_start as int, args@, data_start as int, data_start + w_len);
        lemma_splice_parts(b2, args_start as int, args@, args_start as int, args_start + a_len);
    }
    let ghost m0 = builder.memory;
    builder.set_access(prog_start, prog_region_len, Permission::Read);
    let ghost m1 = builder.memory;
    builder.set_access(data_start, data_region_len, Permission::ReadWrite);
    let ghost m2 = builder.memory;
    builder.set_access(stack_start, stack_len, Permission::ReadWrite);
    let ghost m3 = builder.memory;
    builder.set_access(args_start, args_region_len, Permission::Read);
    let ghost m4 = builder.memory;
    builder.set_heap_bounds(heap_start, heap_end);
    let m = builder.build();
    proof {
        let o = o_len;
        let w = w_len;
        let a = args@.len() as int;
        assert forall|page: int|
            0 <= page < 32 * m.access@.len() implies #[trigger] m.perm(page) == layout_perm(
                page,
                o,
                w,
                z as int,
                s as int,
                a,
            ) by {
            assert(m.access@.len() == m4.access@.len());
            assert(m3.access@.len() == m4.access@.len());
            assert(m2.access@.len() == m3.access@.len());
            assert(m1.access@.len() == m2.access@.len());
            assert(m0.access@.len() == m1.access@.len());
            assert(m.perm(page) == m4.perm(page));
            assert(m4.perm(page) == if in_region(page, args_start as int, args_region_len as int) {
                1
            } else {
                m3.perm(page)
            });
            assert(m3.perm(page) == if in_region(page, stack_start as int, stack_len as int) {
                3
            } else {
                m2.perm(page)
            });
            assert(m2.perm(page) == if in_region(page, data_start as int, data_region_len as int) {
                3
            } else {
                m1.perm(page)
            });
            assert(m1.perm(page) == if in_region(page, prog_start as int, prog_region_len as int) {
                1
            } else {
                m0.perm(page)
            });
            assert(m0.perm(page) == minit.perm(page));
        }
    }
    proof {
        let o = o_len;
        let w = w_len;
        let a = args@.len() as int;
        assert(m.wf());
        assert(m.bytes().len() == MEMORY_SIZE);
        assert(m.bytes().subrange(MIN_ADDR as int, MIN_ADDR + o) == program_text@);
        assert(m.bytes().subrange(data_region_start(o), data_region_start(o) + w) == data@);
        assert(m.bytes().subrange(args_region_start(), args_region_start() + a) == args@);
        assert(m.current_heap_pointer == data_region_start(o) + data_len(w, z as int));
        assert(m.max_heap_pointer == stack_region_start(s as int));
    }
    m
}

/// What a successful setup from blob `p` and arguments `args` returns: the
/// code, the initial registers and the laid-out memory.
pub open spec fn initialized(p: Seq<u8>, args: Seq<u8>, code: Seq<u8>, registers: Seq<u64>, memory: &Memory) -> bool {
    let o = o_size(p);
    let w = w_size(p);
    &&& code == p.subrange(15 + o + w, 15 + o + w + c_size(p))
    &&& registers == initial_registers(args.len())
    &&& initial_memory(
        memory,
        p.subrange(11, 11 + o),
        p.subrange(11 + o, 11 + o + w),
        field(p, 6, 2) as int,
        field(p, 8, 3) as int,
        args,
    )
}

/// Parses a blob and lays out its address space in a fresh map. `None` when
/// the blob is malformed or its regions (arguments included) do not fit the
/// address space, and also when the map cannot be created; otherwise the
/// result is `initialize_program_in`'s.
pub fn initialize_program<'a>(program: &'a [u8], args: &'a [u8]) -> (r: Option<(&'a [u8], Registers, Memory)>)
    requires
        program@.len() <= usize::MAX,
    ensures
        !(segments_ok(program@) && blob_fits(program@, args@.len() as int)) ==> r is None,
        r matches Some((code, registers, memory)) ==> initialized(program@, args@, code@, registers@, &memory),
{
    match Memory::builder() {
        Some(builder) => initialize_program_in(builder, program, args),
        None => None,
    }
}

/// Parses a blob and lays out its address space in a mapped, still
/// inaccessible 4 GiB memory. `None` exactly when the blob is malformed or
/// its regions (arguments included) do not fit the address space.
pub fn initialize_program_in<'a>(builder: MemoryBuilder, program: &'a [u8], args: &'a [u8]) -> (r: Option<
    (&'a [u8], Registers, Memory),
>)
    requires
        program@.len() <= usize::MAX,
        builder.memory.wf(),
        builder.memory.bytes().len() == MEMORY_SIZE,
        forall|page: int|
            0 <= page < 32 * builder.memory.access@.len() ==> #[trigger] builder.memory.perm(page) == 0,
    ensures
        (r is Some) == (segments_ok(program@) && blob_fits(program@, args@.len() as int)),
        r matches Some((code, registers, memory)) ==> initialized(program@, args@, code@, registers@, &memory),
{
    let program_segments = match parse_program_segments(program) {
        Ok(segments) => segments,
        Err(_) => return None,
    };
    proof {
        crate::utils::lemma_pow256_values();
        crate::utils::lemma_le_value_bound(program@.subrange(0, 3));
        crate::utils::lemma_le_value_bound(program@.subrange(3, 6));
        crate::utils::lemma_le_value_bound(program@.subrange(6, 8));
        crate::utils::lemma_le_value_bound(program@.subrange(8, 11));
    }
    let program_text_size = program_segments.program_text.len() as u64;
    let data_size = program_segments.data.len() as u64;
    let s = program_segments.s as u64;
    let z = program_segments.z as u64;
    let args_len = args.len() as u64;
    let page = PAGE_SIZE as u64;
    let min = MIN_ADDR as u64;
    let total = (program_text_size + min - 1) / min * min + (data_size + z * page + min - 1) / min * min + (s + min
        - 1) / min * min;
    if total > MEMORY_SIZE - 5 * min - LAYOUT_BUFFER_SIZE as u64 || args_len > min + LAYOUT_BUFFER_SIZE as u64 {
        return None;
    }
    let registers = Registers::from_slice(
        [
            0xFFFF_0000,
            0xFEFE_0000,
            0,
            0,
            0,
            0,
            0,
            0xFEFF_0000,
            args.len() as u64,
            0,
            0,
            0,
            0,
        ],
    );
    assert(registers@ =~= initial_registers(args@.len()));
    let memory = lay_out(builder, &program_segments, args);
    Some((program_segments.code, registers, memory))
}

} // verus!
