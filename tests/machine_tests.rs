use pvm::alu::{div_s64, mul_upper_ss, mul_upper_su, mul_upper_uu, rem_s64};
use pvm::codec::{deblob, decode_next_integer, encode_integer, ProgramError};
use pvm::dispatch::{dispatch_three_registers, dispatch_two_registers};
use pvm::host::HostOutput;
use pvm::init_program::{initialize_program, parse_program_segments, SegmentError};
use pvm::memory::{Memory, MemoryError, Permission};
use pvm::registers::Registers;
use pvm::test_builder::VmTestBuilder;
use pvm::bitmask::BitMask;
use pvm::types::{ExecutionResult, InstructionResult, StepResult};
use pvm::utils::sign_extend;

const LOAD_IMM: u8 = 51;
const JUMP_IND: u8 = 50;
const ADD_64: u8 = 200;
const ADD_32: u8 = 190;
const DIV_U_64: u8 = 203;
const TRAP: u8 = 0;
const FALLTHROUGH: u8 = 1;
const BRANCH_EQ: u8 = 170;
const STORE_IMM_U8: u8 = 30;
const ECALLI: u8 = 10;
const SBRK: u8 = 101;

fn halt_code() -> Vec<u8> {
    vec![JUMP_IND, 0x00, 0x00, 0x00, 0xFF, 0xFF]
}

#[test]
fn add_and_halt() {
    let mut code = vec![LOAD_IMM, 1, 3, LOAD_IMM, 2, 4, ADD_64, 0x21, 3, LOAD_IMM, 7, 0, 0, 1, LOAD_IMM, 8, 0];
    code.extend(halt_code());
    let mut vm = VmTestBuilder::new(code, &[0x49, 0x42, 0x02]).build().unwrap();
    let (report, result) = vm.arg_invoke();
    assert_eq!(result, ExecutionResult::Halt);
    assert_eq!(vm.state.registers.get(3), 7);
    assert_eq!(vm.state.spent_gas, 6);
    assert_eq!(report.used_gas, 6);
    match report.output {
        HostOutput::Bytes(b) => assert!(b.is_empty()),
        _ => panic!("expected halt output"),
    }
}

#[test]
fn divide_by_zero_then_trap() {
    let code = vec![LOAD_IMM, 1, 10, LOAD_IMM, 2, 0, DIV_U_64, 0x21, 3, TRAP];
    let mut vm = VmTestBuilder::new(code, &[0x49, 0x02]).build().unwrap();
    assert_eq!(vm.execute(), ExecutionResult::Panic);
    assert_eq!(vm.state.registers.get(3), u64::MAX);
}

#[test]
fn branch_to_non_start_panics() {
    let code = vec![BRANCH_EQ, 0x00, 2, FALLTHROUGH, FALLTHROUGH];
    let mut vm = VmTestBuilder::new(code, &[0b11001]).build().unwrap();
    assert_eq!(vm.execute(), ExecutionResult::Panic);
}

#[test]
fn permission_fault_then_resume() {
    let mut memory = Memory::test_memory(33).unwrap();
    memory.set_access(0x10000, 0x1000, Permission::Read);
    let mut code = vec![STORE_IMM_U8, 4, 0x00, 0x0E, 0x01, 0x00, 0x01];
    code.extend(halt_code());
    let mut vm = VmTestBuilder::new(code, &[0x81]).with_memory(memory).build().unwrap();
    assert_eq!(vm.execute(), ExecutionResult::Fault { page: 0x10000 });
    assert_eq!(vm.state.pc, 0);
    vm.memory.set_access(0x10000, 0x1000, Permission::ReadWrite);
    assert_eq!(vm.execute(), ExecutionResult::Halt);
    assert_eq!(vm.memory.read(0x10E00, 1).unwrap(), &[1u8][..]);
}

#[test]
fn ecall_round_trip() {
    let mut code = vec![ECALLI, 42];
    code.extend(halt_code());
    let mut vm = VmTestBuilder::new(code, &[0b101]).build().unwrap();
    let (report, result) = vm.arg_invoke();
    assert_eq!(result, ExecutionResult::HostCall { call_id: 42 });
    assert!(report.is_waiting());
    assert_eq!(vm.state.pc, 2);
    assert_eq!(vm.state.spent_gas, 1);
    assert_eq!(vm.execute(), ExecutionResult::Halt);
    assert_eq!(vm.state.spent_gas, 2);
}

#[test]
fn sbrk_grows_heap_within_bounds() {
    let h: usize = 0x12000;
    let mut memory = Memory::test_memory(33).unwrap();
    memory.set_access(h, 0x1000, Permission::NoAccess);
    memory.current_heap_pointer = h;
    memory.max_heap_pointer = h + 4096;
    let mut registers = Registers::new();
    registers.set(1, 8);
    let mut vm = VmTestBuilder::new(vec![SBRK, 0x12], &[0b1])
        .with_memory(memory)
        .with_registers(registers)
        .build()
        .unwrap();
    assert_eq!(dispatch_two_registers(SBRK, &mut vm), InstructionResult::Continue);
    assert_eq!(vm.state.registers.get(2), h as u64);
    assert_eq!(vm.memory.current_heap_pointer, h + 8);
    assert!(vm.memory.check_access(h, 8, Permission::ReadWrite));
    vm.state.registers.set(1, 8192);
    assert_eq!(dispatch_two_registers(SBRK, &mut vm), InstructionResult::Continue);
    assert_eq!(vm.state.registers.get(2), 0);
    assert_eq!(vm.memory.current_heap_pointer, h + 8);
}

#[test]
fn sbrk_of_zero_reports_heap_pointer() {
    let mut memory = Memory::test_memory(33).unwrap();
    memory.current_heap_pointer = 0x15000;
    let mut vm = VmTestBuilder::new(vec![SBRK, 0x12], &[0b1]).with_memory(memory).build().unwrap();
    assert_eq!(dispatch_two_registers(SBRK, &mut vm), InstructionResult::Continue);
    assert_eq!(vm.state.registers.get(2), 0x15000);
    assert_eq!(vm.memory.current_heap_pointer, 0x15000);
}

#[test]
fn step_charges_one_gas_and_advances() {
    let code = vec![LOAD_IMM, 1, 3, TRAP];
    let mut vm = VmTestBuilder::new(code, &[0b1001]).build().unwrap();
    assert_eq!(vm.single_step_run(), StepResult::Continue);
    assert_eq!(vm.state.spent_gas, 1);
    assert_eq!(vm.state.pc, 3);
    assert_eq!(vm.single_step_run(), StepResult::Panic);
    assert_eq!(vm.state.spent_gas, 2);
}

#[test]
fn step_outside_code_panics_without_gas() {
    let mut vm = VmTestBuilder::new(vec![FALLTHROUGH], &[0b1]).build().unwrap();
    vm.state.pc = 5;
    assert_eq!(vm.single_step_run(), StepResult::Panic);
    assert_eq!(vm.state.spent_gas, 0);
}

#[test]
fn out_of_gas_after_budget() {
    let code = vec![FALLTHROUGH, FALLTHROUGH, FALLTHROUGH, FALLTHROUGH];
    let mut vm = VmTestBuilder::new(code, &[0b1111]).build().unwrap();
    vm.state.initial_gas = 1;
    assert_eq!(vm.execute(), ExecutionResult::OutOfGas);
    assert_eq!(vm.state.spent_gas, 2);
}

#[test]
fn add_32_result_is_sign_extended() {
    let mut registers = Registers::new();
    registers.set(1, 0x7FFF_FFFF);
    registers.set(2, 1);
    let mut vm = VmTestBuilder::new(vec![ADD_32, 0x21, 3], &[0b1]).with_registers(registers).build().unwrap();
    assert_eq!(dispatch_three_registers(ADD_32, &mut vm), InstructionResult::Continue);
    assert_eq!(vm.state.registers.get(3), 0xFFFF_FFFF_8000_0000);
}

#[test]
fn signed_division_edges() {
    let min = 0x8000_0000_0000_0000u64;
    assert_eq!(div_s64(min, u64::MAX), min);
    assert_eq!(rem_s64(min, u64::MAX), 0);
    assert_eq!(div_s64(7u64.wrapping_neg(), 2), 3u64.wrapping_neg());
    assert_eq!(rem_s64(7u64.wrapping_neg(), 2), 1u64.wrapping_neg());
}

#[test]
fn multiply_upper_halves() {
    assert_eq!(mul_upper_uu(u64::MAX, u64::MAX), u64::MAX - 1);
    assert_eq!(mul_upper_ss(u64::MAX, u64::MAX), 0);
    assert_eq!(mul_upper_su(u64::MAX, 2), u64::MAX);
    assert_eq!(mul_upper_ss(1u64 << 63, 2), u64::MAX);
}

#[test]
fn sign_extension_of_bytes() {
    assert_eq!(sign_extend(0x80, 1), 0xFFFF_FFFF_FFFF_FF80);
    assert_eq!(sign_extend(0x7F, 1), 0x7F);
    assert_eq!(sign_extend(0x1234_8000, 2), 0xFFFF_FFFF_FFFF_8000);
    assert_eq!(sign_extend(0xAB, 0), 0xAB);
}

#[test]
fn skip_is_capped_at_24() {
    let bitmask = BitMask::from_bytes(&[1, 0, 0, 0, 0], 40);
    assert_eq!(bitmask.skip(0), 24);
}

#[test]
fn compact_integers_use_the_shortest_form() {
    let mut out = Vec::new();
    encode_integer(0, &mut out);
    encode_integer(127, &mut out);
    encode_integer(300, &mut out);
    encode_integer(1u64 << 56, &mut out);
    assert_eq!(&out[..5], &[0, 127, 0x81, 0x2C, 255]);
    assert_eq!(&out[5..], &[0, 0, 0, 0, 0, 0, 0, 1]);
}

#[test]
fn truncated_blob_is_invalid() {
    assert!(matches!(deblob(&[]), Err(ProgramError::InvalidProgram)));
    assert!(matches!(deblob(&[3, 1, 2, 0]), Err(ProgramError::InvalidProgram)));
    assert!(matches!(deblob(&[0, 9, 0]), Err(ProgramError::InvalidProgram)));
}

#[test]
fn segment_errors() {
    assert!(matches!(parse_program_segments(&[0u8; 14]), Err(SegmentError::InsufficientBytes)));
    let mut blob = vec![5u8, 0, 0];
    blob.extend([0u8; 12]);
    assert!(matches!(parse_program_segments(&blob), Err(SegmentError::InvalidProgram)));
}

#[test]
fn initialize_lays_out_memory_and_registers() {
    let mut blob = vec![2u8, 0, 0, 1, 0, 0, 0, 0, 0x10, 0, 0];
    blob.extend([0xAA, 0xBB]);
    blob.push(0xCC);
    blob.extend([3u8, 0, 0, 0]);
    blob.extend([7u8, 8, 9]);
    let args = [1u8, 2, 3, 4];
    match initialize_program(&blob, &args) {
        Some((code, registers, mut memory)) => {
            assert_eq!(code, &[7u8, 8, 9][..]);
            assert_eq!(registers.get(0), 0xFFFF_0000);
            assert_eq!(registers.get(1), 0xFEFE_0000);
            assert_eq!(registers.get(7), 0xFEFF_0000);
            assert_eq!(registers.get(8), 4);
            assert_eq!(memory.read(0x10000, 2).unwrap(), &[0xAA, 0xBB][..]);
            assert_eq!(memory.read(0x30000, 1).unwrap(), &[0xCC][..]);
            assert_eq!(memory.read(0xFEFF_0000, 4).unwrap(), &[1, 2, 3, 4][..]);
            assert!(matches!(memory.write(0x10000, &[1]), Err(MemoryError::Fault { page_addr: 0x10000 })));
            assert!(memory.check_access(0x30000, 0x1000, Permission::ReadWrite));
            assert_eq!(memory.current_heap_pointer, 0x31000);
        },
        // The 4 GiB address space could not be mapped on this host.
        None => assert!(Memory::builder().is_none()),
    }
}

#[test]
fn memory_below_min_addr_panics_and_empty_access_succeeds() {
    let mut memory = Memory::test_memory(33).unwrap();
    assert!(matches!(memory.read(0x100, 1), Err(MemoryError::Panic)));
    assert!(matches!(memory.write(0x100, &[1]), Err(MemoryError::Panic)));
    assert_eq!(memory.read(0x100, 0).unwrap().len(), 0);
    assert!(memory.write(0x100, &[]).is_ok());
    memory.write(0x10FFE, &[5, 6, 7, 8]).unwrap();
    assert_eq!(memory.read(0x10FFE, 4).unwrap(), &[5, 6, 7, 8][..]);
}

#[test]
fn check_access_follows_page_permissions() {
    let mut memory = Memory::test_memory(33).unwrap();
    memory.set_access(0x11000, 0x1000, Permission::Read);
    assert!(memory.check_access(0x11000, 0x1000, Permission::Read));
    assert!(!memory.check_access(0x10FFF, 2, Permission::ReadWrite));
    assert!(memory.check_access(0x10000, 0x1000, Permission::ReadWrite));
    assert!(!memory.check_access(0x20000, 0x2000, Permission::Read));
}

#[test]
fn execution_moves_between_instruction_starts() {
    let mut code = vec![LOAD_IMM, 1, 3, FALLTHROUGH, LOAD_IMM, 7, 0, 0, 1, LOAD_IMM, 8, 0];
    code.extend(halt_code());
    let mut vm = VmTestBuilder::new(code, &[0x19, 0x12]).build().unwrap();
    loop {
        assert!(vm.context.bitmask.is_set(vm.state.pc));
        assert!(vm.state.pc < vm.context.program.len());
        if vm.single_step_run() != StepResult::Continue {
            break;
        }
    }
    assert_eq!(vm.state.spent_gas, 5);
}

#[test]
fn compact_integer_decoding() {
    assert_eq!(decode_next_integer(&[0x81, 0x2C, 9], 0), Some((300, 2)));
    assert_eq!(decode_next_integer(&[5, 0xC1, 0x00, 0x01], 1), Some(((1 << 16) | 0x100, 4)));
    assert_eq!(decode_next_integer(&[0xC1, 0x00], 0), None);
    assert_eq!(decode_next_integer(&[], 0), None);
}

#[test]
fn positions_past_the_code_start_instructions() {
    let bitmask = BitMask::from_bytes(&[0b1], 3);
    assert!(bitmask.is_set(3));
    assert!(bitmask.is_set(10_000));
    assert!(!bitmask.is_set(1));
    assert_eq!(bitmask.skip(2), 0);
    assert_eq!(bitmask.skip(5_000), 0);
    assert_eq!(bitmask.skip(0), 2);
}
