use std::collections::VecDeque;

use vstd::prelude::*;

use crate::bytecode::Bytecode;
use crate::compiler::{compiled, well_bracketed, Compiler};
use crate::interpret::{fresh_state, lemma_compiled_jumps_in_range, program_tokens};
use crate::io::{Channel, EndOfInput, StdIn, StdOut};
use crate::scanner::scan;
use crate::vm::{runs_to, MachineState, VirtualMachine};

verus! {

/// An I/O capability in memory: reads come from `input`, prints go to `output`.
#[derive(Debug, PartialEq)]
pub struct TestStdOut {
    pub input: VecDeque<char>,
    pub output: Vec<char>,
}

impl TestStdOut {
    pub fn new() -> (r: Self)
        ensures
            r.input@ == Seq::<char>::empty(),
            r.output@ == Seq::<char>::empty(),
    {
        Self { input: VecDeque::new(), output: Vec::new() }
    }

    /// Appends the characters of `input` to what reads return.
    pub fn push_input(&mut self, input: &str)
        ensures
            final(self).input@ == old(self).input@ + input@,
            final(self).output@ == old(self).output@,
    {
        let ghost start = self.input@;
        for c in it: input.chars()
            invariant
                it.seq() == input@,
                self.input@ == start + input@.subrange(0, it.index() as int),
                self.output@ == old(self).output@,
        {
            let ghost i = it.index() as int;
            self.input.push_back(c);
            proof {
                assert(start + input@.subrange(0, i + 1) == (start + input@.subrange(0, i)).push(
                    c,
                ));
            }
        }
        proof {
            assert(input@.subrange(0, input@.len() as int) == input@);
        }
    }
}

impl Channel for TestStdOut {
    open spec fn pending(&self) -> Seq<char> {
        self.input@
    }

    open spec fn printed(&self) -> Seq<char> {
        self.output@
    }
}

impl StdOut for TestStdOut {
    fn print(&mut self, c: char) {
        self.output.push(c);
    }
}

impl StdIn for TestStdOut {
    fn read(&mut self) -> (r: Result<char, EndOfInput>) {
        match self.input.pop_front() {
            Some(c) => Ok(c),
            None => Err(EndOfInput),
        }
    }
}

fn same_chars(a: &Vec<char>, b: &str) -> (r: bool)
    ensures
        r == (a@ == b@),
{
    let mut i: usize = 0;
    let n = b.unicode_len();
    if a.len() != n {
        return false;
    }
    for c in it: b.chars()
        invariant
            it.seq() == b@,
            a@.len() == b@.len(),
            a@.len() <= usize::MAX,
            i == it.index(),
            forall|k: int| 0 <= k < it.index() ==> a@[k] == b@[k],
    {
        if a[i] != c {
            return false;
        }
        i = i + 1;
    }
    proof {
        assert(a@ == b@);
    }
    true
}

/// The characters of `s`, or none.
pub open spec fn given(s: Option<&str>) -> Seq<char> {
    match s {
        Some(s) => s@,
        None => Seq::empty(),
    }
}

/// Runs `source_code` on a fresh machine over a `TestStdOut` that holds `input`.
/// True when the program compiles and, where `output` is given, it printed
/// exactly `output`.
pub fn test_helper(source_code: &str, input: Option<&str>, output: Option<&str>) -> (r: bool)
    ensures
        !well_bracketed(program_tokens(source_code@)) ==> !r,
        well_bracketed(program_tokens(source_code@)) ==> exists|code: Seq<Bytecode>, end: MachineState|
            {
                &&& #[trigger] compiled(program_tokens(source_code@), code)
                &&& #[trigger] runs_to(
                    code,
                    fresh_state(given(input)),
                    end,
                )
                &&& (r <==> match output {
                    Some(s) => end.output == s@,
                    None => true,
                })
            },
{
    let mut io_buffer = TestStdOut::new();
    if let Some(input) = input {
        io_buffer.push_input(input);
    }
    let tokens = scan(source_code);
    let mut compiler = Compiler::new();
    let res = compiler.compile_bytecode(tokens);
    let code = match res {
        Ok(code) => code,
        Err(_) => return false,
    };
    proof {
        lemma_compiled_jumps_in_range(program_tokens(source_code@), code@);
    }
    let mut vm = VirtualMachine::new(io_buffer);
    let ghost start = MachineState { code_pointer: 0, ..vm.state() };
    assert(start == fresh_state(given(input)));
    vm.run(code);
    match output {
        Some(output) => same_chars(&vm.io.output, output),
        None => true,
    }
}

} // verus!
