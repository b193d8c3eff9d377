use vstd::prelude::*;

use crate::bytecode::Bytecode;
use crate::token::Token;
use crate::compiler::{
    compiled,
    jumps_paired,
    lemma_compiled_jumps_paired,
    well_bracketed,
    without_space,
    CompileError,
    Compiler,
};
use crate::io::StdInOut;
use crate::scanner::{scan, scan_spec};
use crate::vm::{jumps_in_range, runs_to, MachineState, VirtualMachine, TAPE_LEN};

verus! {

/// The state of a machine that has not run yet: a zeroed tape, both pointers
/// at 0, `input` still to read and nothing printed.
pub open spec fn fresh_state(input: Seq<char>) -> MachineState {
    MachineState {
        tape: Seq::new(TAPE_LEN as nat, |i: int| 0u8),
        data_pointer: 0,
        code_pointer: 0,
        input,
        output: Seq::empty(),
    }
}

/// The instruction tokens of a source text.
pub open spec fn program_tokens(source: Seq<char>) -> Seq<Token> {
    without_space(scan_spec(source))
}

/// Compiled code has every jump target inside it.
pub proof fn lemma_compiled_jumps_in_range(t: Seq<Token>, code: Seq<Bytecode>)
    requires
        compiled(t, code),
    ensures
        jumps_in_range(code),
{
    lemma_compiled_jumps_paired(t, code);
    assert forall|i: int| 0 <= i < code.len() implies match #[trigger] code[i] {
        Bytecode::LoopStart { jump_to } => jump_to < code.len(),
        Bytecode::LoopEnd { jump_to } => jump_to < code.len(),
        _ => true,
    } by {
        assert(jumps_paired(code));
    }
}

/// Scans, compiles and runs source text on one machine, whose tape carries
/// over from one program to the next.
pub struct Interpreter<IO: StdInOut> {
    pub vm: VirtualMachine<IO>,
    pub compiler: Compiler,
}

impl<IO: StdInOut> Interpreter<IO> {
    pub fn new(io: IO) -> (r: Self)
        ensures
            r.vm.wf(),
            r.vm.memory@ == Seq::new(TAPE_LEN as nat, |i: int| 0u8),
            r.vm.mem_pointer == 0,
            r.vm.code_pointer == 0,
            r.vm.io == io,
    {
        Self { vm: VirtualMachine::new(io), compiler: Compiler::new() }
    }

    /// Runs `source_code`. A program whose brackets do not pair up is refused
    /// before any instruction runs, and the machine is left as it was.
    pub fn interpret(&mut self, source_code: &str) -> (r: Result<(), CompileError>)
        requires
            old(self).vm.wf(),
        ensures
            final(self).vm.wf(),
            r is Ok <==> well_bracketed(program_tokens(source_code@)),
            r is Err ==> r == Err::<(), CompileError>(CompileError::UnmatchedBracket),
            r is Err ==> final(self).vm == old(self).vm,
            r is Ok ==> exists|code: Seq<Bytecode>|
                compiled(program_tokens(source_code@), code) && runs_to(
                    code,
                    MachineState { code_pointer: 0, ..old(self).vm.state() },
                    final(self).vm.state(),
                ),
    {
        let tokens = scan(source_code);
        match self.compiler.compile_bytecode(tokens) {
            Ok(bytecodes) => {
                proof {
                    lemma_compiled_jumps_in_range(program_tokens(source_code@), bytecodes@);
                }
                self.vm.run(bytecodes);
                Ok(())
            },
            Err(e) => Err(e),
        }
    }
}

} // verus!
