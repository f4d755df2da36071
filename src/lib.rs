//! An interpreter for a 64-bit register machine with a page-protected flat
//! address space, a compact program blob format and cooperative host calls.
pub mod alu;
pub mod bitmask;
pub mod bitwords;
pub mod category;
pub mod codec;
pub mod consts;
pub mod dispatch;
pub mod host;
pub mod init_program;
pub mod memory;
pub mod opcodes;
pub mod operands;
pub mod program;
pub mod registers;
pub mod registry;
pub mod run;
pub mod semantics;
pub mod start_set;
pub mod test_builder;
pub mod theorems;
pub mod types;
pub mod utils;
pub mod vm;
