//! What a run reports to the host.
use vstd::prelude::*;

use crate::types::{ExecutionResult, VmState};
use crate::run::run_post;
use crate::vm::Vm;

verus! {

/// The output of a run: the halt output, or how the run stopped.
#[derive(Debug)]
pub enum HostOutput {
    Bytes(Vec<u8>),
    Panic,
    OutOfGas,
    Waiting,
    Fault { page: usize },
}

/// What one `execute` or `resume` returns to the host.
#[derive(Debug)]
pub struct ExecuteResult {
    pub used_gas: u64,
    pub output: HostOutput,
    pub context_token: u64,
}

/// How a run ended, as reported with the state it left.
#[derive(Debug, Clone, Copy, PartialEq, Eq, Structural)]
pub enum VmExecutionOutcome {
    Halt,
    Panic,
    OutOfGas,
    Fault { page: usize },
    Waiting { call_id: u64 },
}

/// The end of a run together with the machine state it left.
#[derive(Debug, Clone, Copy)]
pub struct VmExecutionResult {
    pub outcome: VmExecutionOutcome,
    pub final_state: VmState,
}

impl ExecuteResult {
    pub fn is_waiting(&self) -> (r: bool)
        ensures
            r == (self.output is Waiting),
    {
        match self.output {
            HostOutput::Waiting => true,
            _ => false,
        }
    }
}

/// The halt output: `registers[8]` bytes at `registers[7]`, or nothing when
/// that range cannot be read.
pub open spec fn halt_output_spec(vm: &Vm) -> Seq<u8> {
    match vm.memory.read_spec(vm.state.registers@[7] as usize, vm.state.registers@[8] as usize) {
        Ok(bytes) => bytes,
        Err(_) => Seq::empty(),
    }
}

impl Vm {
    /// Reads the halt output.
    pub fn halt_output(&self) -> (r: Vec<u8>)
        requires
            self.memory.wf(),
        ensures
            r@ == halt_output_spec(self),
    {
        let start = self.state.registers.get(7) as usize;
        let len = self.state.registers.get(8) as usize;
        match self.read_memory(start, len) {
            Ok(bytes) => {
                let mut out: Vec<u8> = Vec::new();
                let mut i: usize = 0;
                while i < bytes.len()
                    invariant
                        i <= bytes@.len(),
                        out@ == bytes@.subrange(0, i as int),
                    decreases bytes@.len() - i,
                {
                    out.push(bytes[i]);
                    i = i + 1;
                    assert(out@ =~= bytes@.subrange(0, i as int));
                }
                assert(bytes@.subrange(0, bytes@.len() as int) =~= bytes@);
                out
            },
            Err(_) => Vec::new(),
        }
    }

    /// The report for a run that ended with `result`: gas used so far, the
    /// halt output or the way the run stopped, and the context token.
    pub fn host_result(&self, result: ExecutionResult) -> (r: ExecuteResult)
        requires
            self.memory.wf(),
        ensures
            r.used_gas == self.state.spent_gas,
            r.context_token == self.context_token,
            match (result, r.output) {
                (ExecutionResult::Halt, HostOutput::Bytes(b)) => b@ == halt_output_spec(self),
                (ExecutionResult::Panic, HostOutput::Panic) => true,
                (ExecutionResult::OutOfGas, HostOutput::OutOfGas) => true,
                (ExecutionResult::Fault { page }, HostOutput::Fault { page: p }) => p == page,
                (ExecutionResult::HostCall { .. }, HostOutput::Waiting) => true,
                _ => false,
            },
    {
        let output = match result {
            ExecutionResult::Halt => HostOutput::Bytes(self.halt_output()),
            ExecutionResult::Panic => HostOutput::Panic,
            ExecutionResult::OutOfGas => HostOutput::OutOfGas,
            ExecutionResult::Fault { page } => HostOutput::Fault { page },
            ExecutionResult::HostCall { .. } => HostOutput::Waiting,
        };
        ExecuteResult { used_gas: self.state.spent_gas, output, context_token: self.context_token }
    }

    /// The end of a run that finished with `result`, and the state it left.
    pub fn execution_result(&self, result: ExecutionResult) -> (r: VmExecutionResult)
        ensures
            r.final_state == self.state,
            r.outcome == match result {
                ExecutionResult::Halt => VmExecutionOutcome::Halt,
                ExecutionResult::Panic => VmExecutionOutcome::Panic,
                ExecutionResult::OutOfGas => VmExecutionOutcome::OutOfGas,
                ExecutionResult::Fault { page } => VmExecutionOutcome::Fault { page },
                ExecutionResult::HostCall { call_id } => VmExecutionOutcome::Waiting { call_id },
            },
    {
        let outcome = match result {
            ExecutionResult::Halt => VmExecutionOutcome::Halt,
            ExecutionResult::Panic => VmExecutionOutcome::Panic,
            ExecutionResult::OutOfGas => VmExecutionOutcome::OutOfGas,
            ExecutionResult::Fault { page } => VmExecutionOutcome::Fault { page },
            ExecutionResult::HostCall { call_id } => VmExecutionOutcome::Waiting { call_id },
        };
        VmExecutionResult { outcome, final_state: self.state }
    }

    /// Runs the machine and reports the outcome; the run's own result (the
    /// one `run_post` describes) comes back too, so that a caller can serve a
    /// host call.
    pub fn arg_invoke(&mut self) -> (r: (ExecuteResult, ExecutionResult))
        requires
            old(self).wf(),
        ensures
            final(self).wf(),
            final(self).context == old(self).context,
            run_post(*old(self), *final(self), r.1),
            r.0.used_gas == final(self).state.spent_gas,
            r.0.context_token == old(self).context_token,
            match (r.1, r.0.output) {
                (ExecutionResult::Halt, HostOutput::Bytes(b)) => b@ == halt_output_spec(final(self)),
                (ExecutionResult::Panic, HostOutput::Panic) => true,
                (ExecutionResult::OutOfGas, HostOutput::OutOfGas) => true,
                (ExecutionResult::Fault { page }, HostOutput::Fault { page: p }) => p == page,
                (ExecutionResult::HostCall { .. }, HostOutput::Waiting) => true,
                _ => false,
            },
    {
        let result = self.execute();
        (self.host_result(result), result)
    }
}

} // verus!
