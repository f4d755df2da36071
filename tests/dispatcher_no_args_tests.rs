use pvm::dispatch::dispatch_no_args;
use pvm::opcodes::{ECALLI, FALLTHROUGH, TRAP};
use pvm::types::InstructionResult;

#[test]
fn test_all_no_args_opcodes() {
    assert_eq!(dispatch_no_args(TRAP), InstructionResult::Panic);
    assert_eq!(dispatch_no_args(FALLTHROUGH), InstructionResult::Continue);
    assert_eq!(dispatch_no_args(ECALLI), InstructionResult::Panic);
}
