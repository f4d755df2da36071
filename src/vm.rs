//! A machine: shared program context, memory and mutable state.
use std::sync::Arc;
use vstd::prelude::*;

use crate::memory::{Memory, MemoryError};
use crate::types::{InstructionResult, VmContext, VmState};
use crate::utils::{decode_le, encode_le_bytes, le_bytes, le_value, sign_extend, sign_extend_spec};

verus! {

pub struct Vm {
    pub context: Arc<VmContext>,
    pub memory: Memory,
    pub state: VmState,
    pub context_token: u64,
}

/// The value a load of `width` bytes produces from `bytes`.
pub open spec fn load_value(bytes: Seq<u8>, width: usize, signed: bool) -> u64 {
    if signed {
        sign_extend_spec(le_value(bytes) as u64, width as nat)
    } else {
        le_value(bytes) as u64
    }
}

/// The instruction result for a failed memory access.
pub open spec fn error_result(e: MemoryError) -> InstructionResult {
    match e {
        MemoryError::Fault { page_addr } => InstructionResult::Fault { page: page_addr },
        MemoryError::Panic => InstructionResult::Panic,
    }
}

/// Result and registers after loading `width` bytes at `addr` into register `dst`.
pub open spec fn load_effect(
    m: &Memory,
    addr: usize,
    width: usize,
    signed: bool,
    regs: Seq<u64>,
    dst: int,
) -> (InstructionResult, Seq<u64>) {
    match m.read_spec(addr, width) {
        Ok(bytes) => (InstructionResult::Continue, regs.update(dst, load_value(bytes, width, signed))),
        Err(e) => (error_result(e), regs),
    }
}

/// Result of storing the low `width` bytes of `value` at `addr`.
pub open spec fn store_effect(m: &Memory, addr: usize, value: u64, width: usize) -> InstructionResult {
    match m.write_spec(addr, le_bytes(value as nat, width as nat)) {
        Ok(()) => InstructionResult::Continue,
        Err(e) => error_result(e),
    }
}

/// Bytes of memory after storing the low `width` bytes of `value` at `addr`.
pub open spec fn stored_bytes(m: &Memory, addr: usize, value: u64, width: usize) -> Seq<u8> {
    m.written(addr, le_bytes(value as nat, width as nat))
}

impl Vm {
    pub open spec fn wf(&self) -> bool {
        &&& self.context.wf()
        &&& self.memory.wf()
    }

    /// `other` is this machine with at most registers and memory changed.
    pub open spec fn same_but_data(&self, other: &Vm) -> bool {
        &&& other.context == self.context
        &&& other.state.pc == self.state.pc
        &&& other.state.initial_gas == self.state.initial_gas
        &&& other.state.spent_gas == self.state.spent_gas
        &&& other.context_token == self.context_token
    }

    pub fn new(context: Arc<VmContext>, state: VmState, memory: Memory, context_token: u64) -> (r: Self)
        ensures
            r.context == context,
            r.state == state,
            r.memory == memory,
            r.context_token == context_token,
    {
        Self { context, memory, state, context_token }
    }

    /// A machine outside any host session (its context token is 0).
    pub fn test_instance(context: Arc<VmContext>, state: VmState, memory: Memory) -> (r: Self)
        ensures
            r.context == context,
            r.state == state,
            r.memory == memory,
            r.context_token == 0,
    {
        Self { context, memory, state, context_token: 0 }
    }

    pub fn read_memory(&self, addr: usize, len: usize) -> (r: Result<&[u8], MemoryError>)
        requires
            self.memory.wf(),
        ensures
            match (r, self.memory.read_spec(addr, len)) {
                (Ok(s), Ok(t)) => s@ == t,
                (Err(e), Err(f)) => e == f,
                _ => false,
            },
    {
        self.memory.read(addr, len)
    }

    pub fn write_memory(&mut self, addr: usize, data: &[u8]) -> (r: InstructionResult)
        requires
            old(self).memory.wf(),
        ensures
            r == match old(self).memory.write_spec(addr, data@) {
                Ok(()) => InstructionResult::Continue,
                Err(e) => error_result(e),
            },
            final(self).memory.wf(),
            final(self).memory.bytes() == old(self).memory.written(addr, data@),
            final(self).memory.access@ == old(self).memory.access@,
            final(self).memory.current_heap_pointer == old(self).memory.current_heap_pointer,
            final(self).memory.max_heap_pointer == old(self).memory.max_heap_pointer,
            final(self).state == old(self).state,
            old(self).same_but_data(final(self)),
    {
        match self.memory.write(addr, data) {
            Ok(()) => InstructionResult::Continue,
            Err(MemoryError::Fault { page_addr }) => InstructionResult::Fault { page: page_addr },
            Err(MemoryError::Panic) => InstructionResult::Panic,
        }
    }

    /// Loads `width` (1, 2, 4 or 8) bytes at `addr` into register `dst`.
    pub fn load_register(&mut self, addr: usize, width: usize, signed: bool, dst: usize) -> (r: InstructionResult)
        requires
            old(self).memory.wf(),
            width == 1 || width == 2 || width == 4 || width == 8,
            dst < 13,
        ensures
            (r, final(self).state.registers@) == load_effect(
                &old(self).memory,
                addr,
                width,
                signed,
                old(self).state.registers@,
                dst as int,
            ),
            final(self).memory == old(self).memory,
            old(self).same_but_data(final(self)),
    {
        match self.memory.read(addr, width) {
            Ok(data) => {
                let raw = decode_le(data, width);
                assert(data@.subrange(0, width as int) =~= data@);
                let value = if signed {
                    sign_extend(raw, width)
                } else {
                    raw
                };
                self.state.registers.set(dst, value);
                InstructionResult::Continue
            },
            Err(MemoryError::Fault { page_addr }) => InstructionResult::Fault { page: page_addr },
            Err(MemoryError::Panic) => InstructionResult::Panic,
        }
    }

    /// Stores the low `width` (at most 8) bytes of `value` at `addr`.
    pub fn store_value(&mut self, addr: usize, value: u64, width: usize) -> (r: InstructionResult)
        requires
            old(self).memory.wf(),
            width <= 8,
        ensures
            r == store_effect(&old(self).memory, addr, value, width),
            final(self).memory.wf(),
            final(self).memory.bytes() == stored_bytes(&old(self).memory, addr, value, width),
            final(self).memory.access@ == old(self).memory.access@,
            final(self).memory.current_heap_pointer == old(self).memory.current_heap_pointer,
            final(self).memory.max_heap_pointer == old(self).memory.max_heap_pointer,
            final(self).state == old(self).state,
            old(self).same_but_data(final(self)),
    {
        let data = encode_le_bytes(value, width);
        self.write_memory(addr, data.as_slice())
    }
}

} // verus!
