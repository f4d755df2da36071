//! Address-space geometry and other fixed parameters of the machine.
use vstd::prelude::*;

verus! {

/// Size of one page of the address space.
pub const PAGE_SIZE: usize = 0x1000;

/// Lowest address that the guest may touch.
pub const MIN_ADDR: usize = 0x1_0000;

/// Gap kept free below the argument region.
pub const LAYOUT_BUFFER_SIZE: usize = 0x100_0000;

/// Size of the whole guest address space (4 GiB).
pub const MEMORY_SIZE: u64 = 0x1_0000_0000;

/// Page permissions are packed two bits per page into 64-bit words.
pub const PAGES_PER_ACCESS_WORD: usize = 32;

/// Gas charged for each dispatched instruction.
pub const GAS_COST: u64 = 1;

/// Number of registers of the machine.
pub const NUM_REGISTERS: usize = 13;

/// Largest value that `skip` reports.
pub const MAX_SKIP: usize = 24;

/// Zero bytes appended behind the code so operand decoding never leaves the buffer.
pub const CODE_PADDING: usize = 32;

/// Dynamic-jump target that halts the machine.
pub const HALT_ADDRESS: u64 = 0xFFFF_0000;

} // verus!
