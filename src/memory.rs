//! The guest address space: bytes in an anonymous memory map, and a
//! permission table holding two bits per page.
use vstd::prelude::*;

use crate::consts::{MEMORY_SIZE, MIN_ADDR, PAGES_PER_ACCESS_WORD, PAGE_SIZE};

verus! {

/// memmap's writable memory map, held opaquely; its bytes are `mapped_bytes`.
#[verifier::external_type_specification]
#[verifier::external_body]
pub struct ExMmapMut(memmap::MmapMut);

/// The bytes that a memory map holds.
pub uninterp spec fn mapped_bytes(m: memmap::MmapMut) -> Seq<u8>;

/// Relies on memmap::MmapOptions::map_anon: on success the map has the length asked for.
#[verifier::external_body]
fn map_anonymous(len: usize) -> (r: Option<memmap::MmapMut>)
    requires
        len > 0,
    ensures
        r matches Some(m) ==> mapped_bytes(m).len() == len,
{
    memmap::MmapOptions::new().len(len).map_anon().ok()
}

/// Relies on MmapMut's Deref: the slice is the whole map.
#[verifier::external_body]
fn mapped_slice(m: &memmap::MmapMut) -> (r: &[u8])
    ensures
        r@ == mapped_bytes(*m),
{
    &m[..]
}

/// Relies on MmapMut's DerefMut: copies `data` into the map at `addr`.
#[verifier::external_body]
fn mapped_write(m: &mut memmap::MmapMut, addr: usize, data: &[u8])
    requires
        addr + data@.len() <= mapped_bytes(*old(m)).len(),
    ensures
        mapped_bytes(*final(m)) == spliced(mapped_bytes(*old(m)), addr as int, data@),
{
    m[addr..addr + data.len()].copy_from_slice(data)
}

/// `s` with the bytes from `at` on replaced by `data`.
pub open spec fn spliced(s: Seq<u8>, at: int, data: Seq<u8>) -> Seq<u8> {
    s.subrange(0, at) + data + s.subrange(at + data.len(), s.len() as int)
}

#[derive(Copy, Clone, Debug, PartialEq, Eq, Structural)]
pub enum Permission {
    NoAccess,
    Read,
    ReadWrite,
}

/// The two permission bits of a permission: none 00, read 01, read-write 11.
pub open spec fn perm_bits(p: Permission) -> u64 {
    match p {
        Permission::NoAccess => 0,
        Permission::Read => 1,
        Permission::ReadWrite => 3,
    }
}

pub fn permission_bits(p: Permission) -> (r: u64)
    ensures
        r == perm_bits(p),
{
    match p {
        Permission::NoAccess => 0,
        Permission::Read => 1,
        Permission::ReadWrite => 3,
    }
}

#[derive(Debug, Clone, Copy, PartialEq, Eq, Structural)]
pub enum MemoryError {
    Fault { page_addr: usize },
    Panic,
}

/// Ways in which handing memory over to a holder can fail.
#[derive(Debug, Clone, Copy, PartialEq, Eq, Structural)]
pub enum MutexError {
    Poisoned,
    MemoryAlreadyPresent,
}

/// Base address of the page holding `addr`.
pub open spec fn page_base(addr: usize) -> usize {
    addr & !0xFFFusize
}

/// First page past the range `[addr, addr + len)`.
pub open spec fn pages_end(addr: int, len: int) -> int {
    (addr + len + 0xFFF) / 0x1000
}

/// Permission bits of page `page` in a packed table.
pub open spec fn table_perm(access: Seq<u64>, page: int) -> u64 {
    (access[page / 32] >> (((page % 32) * 2) as u64)) & 3u64
}

pub struct Memory {
    pub mmap: memmap::MmapMut,
    pub access: Vec<u64>,
    pub current_heap_pointer: usize,
    pub max_heap_pointer: usize,
}

pub proof fn lemma_set_perm(w: u64, off: u64, bits: u64, other: u64)
    requires
        off < 64,
        other < 64,
        off % 2 == 0,
        other % 2 == 0,
        bits <= 3,
    ensures
        ((((w & !(3u64 << off)) | (bits << off)) >> other) & 3u64) == if other == off {
            bits
        } else {
            (w >> other) & 3u64
        },
{
    assert(((((w & !(3u64 << off)) | (bits << off)) >> other) & 3u64) == if other == off {
        bits
    } else {
        (w >> other) & 3u64
    }) by (bit_vector)
        requires
            off < 64,
            other < 64,
            off % 2 == 0,
            other % 2 == 0,
            bits <= 3,
    ;
}

pub proof fn lemma_pages_in_table(m: &Memory, addr: int, len: int)
    requires
        m.wf(),
        0 <= addr,
        0 <= len,
        addr + len <= m.bytes().len(),
    ensures
        pages_end(addr, len) <= 32 * m.access@.len(),
        pages_end(addr, len) == (addr + len) / 0x1000 + if (addr + len) % 0x1000 != 0 {
            1int
        } else {
            0int
        },
{
    let a = m.access@.len() as int;
    assert((addr + len + 0xFFF) / 0x1000 <= 32 * a) by (nonlinear_arith)
        requires
            addr + len <= 32 * 0x1000 * a,
            0 <= addr + len,
    ;
}

impl Memory {
    pub open spec fn bytes(&self) -> Seq<u8> {
        mapped_bytes(self.mmap)
    }

    /// Permission bits of page `page`.
    pub open spec fn perm(&self, page: int) -> u64 {
        table_perm(self.access@, page)
    }

    /// The permission table covers every page of the map.
    pub open spec fn wf(&self) -> bool {
        &&& self.max_heap_pointer <= self.bytes().len()
        &&& self.bytes().len() <= 32 * 0x1000 * self.access@.len()
        &&& 32 * 0x1000 * self.access@.len() <= usize::MAX
    }

    /// Whether every page that `[addr, addr + len)` touches grants `p`,
    /// the range lying inside the map.
    pub open spec fn access_ok(&self, addr: int, len: int, p: Permission) -> bool {
        &&& addr + len <= self.bytes().len()
        &&& forall|page: int|
            addr / 0x1000 <= page < pages_end(addr, len) ==> #[trigger] self.perm(page) & perm_bits(p)
                == perm_bits(p)
    }

    /// Outcome of reading `len` bytes at `addr`.
    pub open spec fn read_spec(&self, addr: usize, len: usize) -> Result<Seq<u8>, MemoryError> {
        if len == 0 {
            Ok(Seq::empty())
        } else if addr < MIN_ADDR {
            Err(MemoryError::Panic)
        } else if self.access_ok(addr as int, len as int, Permission::Read) {
            Ok(self.bytes().subrange(addr as int, addr + len))
        } else {
            Err(MemoryError::Fault { page_addr: page_base(addr) })
        }
    }

    /// Outcome of writing `data` at `addr` (the bytes change only on success).
    pub open spec fn write_spec(&self, addr: usize, data: Seq<u8>) -> Result<(), MemoryError> {
        if data.len() == 0 {
            Ok(())
        } else if addr < MIN_ADDR {
            Err(MemoryError::Panic)
        } else if self.access_ok(addr as int, data.len() as int, Permission::ReadWrite) {
            Ok(())
        } else {
            Err(MemoryError::Fault { page_addr: page_base(addr) })
        }
    }

    /// Bytes after writing `data` at `addr`.
    pub open spec fn written(&self, addr: usize, data: Seq<u8>) -> Seq<u8> {
        if self.write_spec(addr, data) is Ok && data.len() > 0 {
            spliced(self.bytes(), addr as int, data)
        } else {
            self.bytes()
        }
    }

    pub fn len(&self) -> (r: usize)
        ensures
            r == self.bytes().len(),
    {
        mapped_slice(&self.mmap).len()
    }

    /// Whether every page that `[addr, addr + len)` touches grants `required_permission`.
    pub fn check_access(&self, addr: usize, len: usize, required_permission: Permission) -> (r: bool)
        requires
            self.wf(),
        ensures
            r == self.access_ok(addr as int, len as int, required_permission),
    {
        let size = self.len();
        if addr > size || len > size - addr {
            return false;
        }
        let page_start = addr / PAGE_SIZE;
        let page_end: usize = (addr + len) / PAGE_SIZE + if (addr + len) % PAGE_SIZE != 0 {
            1usize
        } else {
            0usize
        };
        proof {
            lemma_pages_in_table(self, addr as int, len as int);
        }
        let required_bits = permission_bits(required_permission);
        let mut page = page_start;
        while page < page_end
            invariant
                self.wf(),
                addr + len <= self.bytes().len(),
                page_start == addr / 0x1000,
                page_end == pages_end(addr as int, len as int),
                page_start <= page,
                page_end <= 32 * self.access@.len(),
                required_bits == perm_bits(required_permission),
                forall|q: int|
                    page_start <= q < page ==> #[trigger] self.perm(q) & required_bits == required_bits,
            decreases page_end - page,
        {
            let entry = self.access[page / 32];
            let page_permission = (entry >> (((page % 32) * 2) as u64)) & 3u64;
            if page_permission & required_bits != required_bits {
                assert(self.perm(page as int) & required_bits != required_bits);
                return false;
            }
            page = page + 1;
        }
        true
    }

    /// Grants `permissions` to every page that `[addr, addr + len)` touches.
    pub fn set_access(&mut self, addr: usize, len: usize, permissions: Permission)
        requires
            old(self).wf(),
            addr + len <= old(self).bytes().len(),
        ensures
            final(self).wf(),
            final(self).bytes() == old(self).bytes(),
            final(self).access@.len() == old(self).access@.len(),
            final(self).current_heap_pointer == old(self).current_heap_pointer,
            final(self).max_heap_pointer == old(self).max_heap_pointer,
            forall|page: int|
                0 <= page < 32 * final(self).access@.len() ==> #[trigger] final(self).perm(page) == if addr
                    / 0x1000 <= page < pages_end(addr as int, len as int) {
                    perm_bits(permissions)
                } else {
                    old(self).perm(page)
                },
    {
        let start_page = addr / PAGE_SIZE;
        let end_page: usize = (addr + len) / PAGE_SIZE + if (addr + len) % PAGE_SIZE != 0 {
            1usize
        } else {
            0usize
        };
        proof {
            lemma_pages_in_table(self, addr as int, len as int);
        }
        let permission_bits = permission_bits(permissions);
        let mut page = start_page;
        while page < end_page
            invariant
                self.wf(),
                self.bytes() == old(self).bytes(),
                self.access@.len() == old(self).access@.len(),
                self.current_heap_pointer == old(self).current_heap_pointer,
                self.max_heap_pointer == old(self).max_heap_pointer,
                addr + len <= self.bytes().len(),
                start_page == addr / 0x1000,
                end_page == pages_end(addr as int, len as int),
                start_page <= page <= end_page,
                end_page <= 32 * self.access@.len(),
                permission_bits == perm_bits(permissions),
                forall|q: int|
                    0 <= q < 32 * self.access@.len() ==> #[trigger] table_perm(self.access@, q) == if start_page <= q
                        < page {
                        perm_bits(permissions)
                    } else {
                        old(self).perm(q)
                    },
            decreases end_page - page,
        {
            let entry_idx = page / 32;
            let bit_offset = ((page % 32) * 2) as u64;
            let mask = 3u64 << bit_offset;
            let entry = self.access[entry_idx];
            let ghost before = self.access@;
            self.access.set(entry_idx, (entry & !mask) | (permission_bits << bit_offset));
            proof {
                assert forall|q: int|
                    0 <= q < 32 * self.access@.len() implies #[trigger] table_perm(self.access@, q) == if start_page
                        <= q < page + 1 {
                        perm_bits(permissions)
                    } else {
                        old(self).perm(q)
                    } by {
                    if q / 32 == entry_idx {
                        lemma_set_perm(entry, bit_offset, permission_bits, ((q % 32) * 2) as u64);
                    }
                    assert(table_perm(before, q) == if start_page <= q < page {
                        perm_bits(permissions)
                    } else {
                        old(self).perm(q)
                    });
                }
            }
            page = page + 1;
        }
    }

    /// Reads `len` bytes at `addr`.
    pub fn read(&self, addr: usize, len: usize) -> (r: Result<&[u8], MemoryError>)
        requires
            self.wf(),
        ensures
            match (r, self.read_spec(addr, len)) {
                (Ok(s), Ok(t)) => s@ == t,
                (Err(e), Err(f)) => e == f,
                _ => false,
            },
    {
        if len == 0 {
            return Ok(vstd::slice::slice_subrange(mapped_slice(&self.mmap), 0, 0));
        }
        if addr < MIN_ADDR {
            return Err(MemoryError::Panic);
        }
        if self.check_access(addr, len, Permission::Read) {
            Ok(vstd::slice::slice_subrange(mapped_slice(&self.mmap), addr, addr + len))
        } else {
            Err(MemoryError::Fault { page_addr: addr & !(PAGE_SIZE - 1) })
        }
    }

    /// Writes `data` at `addr`.
    pub fn write(&mut self, addr: usize, data: &[u8]) -> (r: Result<(), MemoryError>)
        requires
            old(self).wf(),
        ensures
            r == old(self).write_spec(addr, data@),
            final(self).bytes() == old(self).written(addr, data@),
            final(self).access@ == old(self).access@,
            final(self).current_heap_pointer == old(self).current_heap_pointer,
            final(self).max_heap_pointer == old(self).max_heap_pointer,
    {
        if data.len() == 0 {
            return Ok(());
        }
        if addr < MIN_ADDR {
            return Err(MemoryError::Panic);
        }
        if self.check_access(addr, data.len(), Permission::ReadWrite) {
            mapped_write(&mut self.mmap, addr, data);
            Ok(())
        } else {
            Err(MemoryError::Fault { page_addr: addr & !(PAGE_SIZE - 1) })
        }
    }
}

/// Fills a permission table of `n` words with `word`.
fn filled_table(n: usize, word: u64) -> (r: Vec<u64>)
    ensures
        r@ == Seq::new(n as nat, |i: int| word),
{
    let mut v: Vec<u64> = Vec::new();
    while v.len() < n
        invariant
            v@.len() <= n,
            v@ == Seq::new(v@.len(), |i: int| word),
        decreases n - v@.len(),
    {
        v.push(word);
        assert(v@ =~= Seq::new(v@.len(), |i: int| word));
    }
    v
}

pub proof fn lemma_table_fill(n: nat, word: u64, page: int)
    requires
        0 <= page < 32 * n,
    ensures
        table_perm(Seq::new(n, |i: int| word), page) == (word >> (((page % 32) * 2) as u64)) & 3u64,
{
}

pub proof fn lemma_perm_of_fill(word: u64, off: u64)
    requires
        off <= 62,
    ensures
        word == 0 ==> (word >> off) & 3u64 == 0,
        word == u64::MAX ==> (word >> off) & 3u64 == 3,
{
    assert((0u64 >> off) & 3u64 == 0) by (bit_vector);
    assert(off <= 62 ==> (u64::MAX >> off) & 3u64 == 3) by (bit_vector);
}

/// A memory under construction, before it is handed to a machine.
pub struct MemoryBuilder {
    pub memory: Memory,
}

impl Memory {
    /// A builder over the full 4 GiB address space with every page
    /// inaccessible, or `None` when the map cannot be created.
    pub fn builder() -> (r: Option<MemoryBuilder>)
        ensures
            r matches Some(b) ==> {
                &&& b.memory.wf()
                &&& b.memory.bytes().len() == MEMORY_SIZE
                &&& forall|page: int| 0 <= page < 32 * b.memory.access@.len() ==> #[trigger] b.memory.perm(page) == 0
                &&& b.memory.current_heap_pointer == MIN_ADDR
                &&& b.memory.max_heap_pointer == MEMORY_SIZE
            },
    {
        if MEMORY_SIZE > usize::MAX as u64 {
            return None;
        }
        let size = MEMORY_SIZE as usize;
        let total_pages = size / PAGE_SIZE;
        let access_entries = total_pages / PAGES_PER_ACCESS_WORD;
        let mmap = match map_anonymous(size) {
            Some(m) => m,
            None => return None,
        };
        assert(size == 0x1_0000_0000);
        assert(access_entries == 0x8000);
        let access = filled_table(access_entries, 0);
        let memory = Memory { mmap, access, current_heap_pointer: MIN_ADDR, max_heap_pointer: size };
        assert forall|page: int| 0 <= page < 32 * memory.access@.len() implies #[trigger] memory.perm(page) == 0 by {
            lemma_table_fill(access_entries as nat, 0, page);
            lemma_perm_of_fill(0, ((page % 32) * 2) as u64);
        }
        Some(MemoryBuilder { memory })
    }

    /// A memory of `num_pages` pages, all readable and writable, with the heap
    /// spanning the whole map; `None` when the map cannot be created.
    pub fn test_memory(num_pages: usize) -> (r: Option<Memory>)
        requires
            0 < num_pages <= usize::MAX / 0x40000,
        ensures
            r matches Some(m) ==> {
                &&& m.wf()
                &&& m.bytes().len() == num_pages * PAGE_SIZE
                &&& forall|page: int| 0 <= page < 32 * m.access@.len() ==> #[trigger] m.perm(page) == 3
                &&& m.current_heap_pointer == 0
                &&& m.max_heap_pointer == num_pages * PAGE_SIZE
            },
    {
        let size = num_pages * PAGE_SIZE;
        let access_entries = num_pages / PAGES_PER_ACCESS_WORD + if num_pages % PAGES_PER_ACCESS_WORD != 0 {
            1usize
        } else {
            0usize
        };
        let mmap = match map_anonymous(size) {
            Some(m) => m,
            None => return None,
        };
        assert(size <= 32 * 0x1000 * access_entries <= usize::MAX) by (nonlinear_arith)
            requires
                size == num_pages * 0x1000,
                access_entries == num_pages / 32 + if num_pages % 32 != 0 { 1int } else { 0int },
                0 < num_pages <= usize::MAX / 0x40000,
        ;
        let access = filled_table(access_entries, u64::MAX);
        let memory = Memory { mmap, access, current_heap_pointer: 0, max_heap_pointer: size };
        assert forall|page: int| 0 <= page < 32 * memory.access@.len() implies #[trigger] memory.perm(page) == 3 by {
            lemma_table_fill(access_entries as nat, u64::MAX, page);
            lemma_perm_of_fill(u64::MAX, ((page % 32) * 2) as u64);
        }
        Some(memory)
    }
}

impl MemoryBuilder {
    /// Copies `data` into the memory at `addr`, whatever the permissions.
    pub fn copy_in(&mut self, addr: usize, data: &[u8])
        requires
            old(self).memory.wf(),
            addr + data@.len() <= old(self).memory.bytes().len(),
        ensures
            final(self).memory.wf(),
            final(self).memory.bytes() == spliced(old(self).memory.bytes(), addr as int, data@),
            final(self).memory.access@ == old(self).memory.access@,
            final(self).memory.current_heap_pointer == old(self).memory.current_heap_pointer,
            final(self).memory.max_heap_pointer == old(self).memory.max_heap_pointer,
    {
        mapped_write(&mut self.memory.mmap, addr, data);
    }

    pub fn set_access(&mut self, addr: usize, len: usize, permissions: Permission)
        requires
            old(self).memory.wf(),
            addr + len <= old(self).memory.bytes().len(),
        ensures
            final(self).memory.wf(),
            final(self).memory.bytes() == old(self).memory.bytes(),
            final(self).memory.access@.len() == old(self).memory.access@.len(),
            final(self).memory.current_heap_pointer == old(self).memory.current_heap_pointer,
            final(self).memory.max_heap_pointer == old(self).memory.max_heap_pointer,
            forall|page: int|
                0 <= page < 32 * final(self).memory.access@.len() ==> #[trigger] final(self).memory.perm(page)
                    == if addr / 0x1000 <= page < pages_end(addr as int, len as int) {
                    perm_bits(permissions)
                } else {
                    old(self).memory.perm(page)
                },
    {
        self.memory.set_access(addr, len, permissions);
    }

    pub fn set_heap_bounds(&mut self, current: usize, max: usize)
        requires
            old(self).memory.wf(),
            max <= old(self).memory.bytes().len(),
        ensures
            final(self).memory.wf(),
            final(self).memory.bytes() == old(self).memory.bytes(),
            final(self).memory.access@ == old(self).memory.access@,
            final(self).memory.current_heap_pointer == current,
            final(self).memory.max_heap_pointer == max,
    {
        self.memory.current_heap_pointer = current;
        self.memory.max_heap_pointer = max;
    }

    pub fn build(self) -> (r: Memory)
        ensures
            r == self.memory,
    {
        self.memory
    }
}

} // verus!
