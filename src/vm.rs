use vstd::prelude::*;

use crate::bytecode::Bytecode;
use crate::io::{Channel, StdIn, StdInOut, StdOut};

verus! {

/// The number of cells on the tape of every machine.
pub const TAPE_LEN: usize = 3000;

/// The most instructions that one `run` executes.
pub const STEP_LIMIT: u64 = 0xffff_ffff_ffff_ffff;

/// A machine as contracts see it: its tape and pointers, and the input that
/// its capability has yet to give and the output it has printed.
pub struct MachineState {
    pub tape: Seq<u8>,
    pub data_pointer: int,
    pub code_pointer: int,
    pub input: Seq<char>,
    pub output: Seq<char>,
}

/// Every jump target lies inside the code.
pub open spec fn jumps_in_range(code: Seq<Bytecode>) -> bool {
    forall|i: int|
        0 <= i < code.len() ==> match #[trigger] code[i] {
            Bytecode::LoopStart { jump_to } => jump_to < code.len(),
            Bytecode::LoopEnd { jump_to } => jump_to < code.len(),
            _ => true,
        }
}

/// The code pointer has run off the end of the code.
pub open spec fn halted(code: Seq<Bytecode>, s: MachineState) -> bool {
    s.code_pointer >= code.len()
}

/// What one instruction does. The pointer wraps at both ends of the tape, a
/// cell wraps modulo 256, a read with no input left leaves the cell as it is,
/// and after every instruction, a jump too, the code pointer moves on by one.
/// A halted machine stays as it is.
pub open spec fn step(code: Seq<Bytecode>, s: MachineState) -> MachineState {
    if s.code_pointer < 0 || s.code_pointer >= code.len() {
        s
    } else {
        let cell = s.tape[s.data_pointer];
        let next = MachineState { code_pointer: s.code_pointer + 1, ..s };
        match code[s.code_pointer] {
            Bytecode::IncrementPointer => MachineState {
                data_pointer: if s.data_pointer + 1 == s.tape.len() {
                    0
                } else {
                    s.data_pointer + 1
                },
                ..next
            },
            Bytecode::DecrementPointer => MachineState {
                data_pointer: if s.data_pointer == 0 {
                    s.tape.len() - 1
                } else {
                    s.data_pointer - 1
                },
                ..next
            },
            Bytecode::IncrementValue => MachineState {
                tape: s.tape.update(s.data_pointer, ((cell + 1) % 256) as u8),
                ..next
            },
            Bytecode::DecrementValue => MachineState {
                tape: s.tape.update(s.data_pointer, ((cell + 255) % 256) as u8),
                ..next
            },
            Bytecode::OutputValue => MachineState { output: s.output.push(cell as char), ..next },
            Bytecode::InputValue => if s.input.len() > 0 {
                MachineState {
                    tape: s.tape.update(s.data_pointer, s.input[0] as u8),
                    input: s.input.drop_first(),
                    ..next
                }
            } else {
                next
            },
            Bytecode::LoopStart { jump_to } => if cell == 0 {
                MachineState { code_pointer: jump_to + 1, ..s }
            } else {
                next
            },
            Bytecode::LoopEnd { jump_to } => if cell != 0 {
                MachineState { code_pointer: jump_to + 1, ..s }
            } else {
                next
            },
        }
    }
}

/// The machine after `n` instructions.
pub open spec fn run_spec(code: Seq<Bytecode>, s: MachineState, n: nat) -> MachineState
    decreases n,
{
    if n == 0 {
        s
    } else {
        step(code, run_spec(code, s, (n - 1) as nat))
    }
}

/// Running `code` from `start` ends in `end`: it halted there, or used up the
/// step limit.
pub open spec fn runs_to(code: Seq<Bytecode>, start: MachineState, end: MachineState) -> bool {
    exists|n: nat|
        #![trigger run_spec(code, start, n)]
        n <= STEP_LIMIT && end == run_spec(code, start, n) && (halted(code, end) || n
            == STEP_LIMIT)
}

proof fn lemma_halted_stays(code: Seq<Bytecode>, s: MachineState, n: nat, m: nat)
    requires
        halted(code, run_spec(code, s, n)),
        n <= m,
    ensures
        run_spec(code, s, m) == run_spec(code, s, n),
    decreases m - n,
{
    if n < m {
        lemma_halted_stays(code, s, n, (m - 1) as nat);
    }
}

/// A run from one state ends in one state.
pub proof fn lemma_runs_to_unique(code: Seq<Bytecode>, s: MachineState, a: MachineState, b: MachineState)
    requires
        runs_to(code, s, a),
        runs_to(code, s, b),
    ensures
        a == b,
{
    let na = choose|n: nat|
        n <= STEP_LIMIT && a == run_spec(code, s, n) && (halted(code, a) || n == STEP_LIMIT);
    let nb = choose|n: nat|
        n <= STEP_LIMIT && b == run_spec(code, s, n) && (halted(code, b) || n == STEP_LIMIT);
    if na <= nb {
        if halted(code, a) {
            lemma_halted_stays(code, s, na, nb);
        }
    } else {
        if halted(code, b) {
            lemma_halted_stays(code, s, nb, na);
        }
    }
}

/// `n` copies of one instruction.
pub open spec fn repeated(b: Bytecode, n: nat) -> Seq<Bytecode> {
    Seq::new(n, |i: int| b)
}

proof fn lemma_increments_prefix(s: MachineState, k: nat)
    requires
        0 <= s.data_pointer < s.tape.len(),
        s.code_pointer == 0,
        k <= 256,
    ensures
        run_spec(repeated(Bytecode::IncrementValue, 256), s, k) == (MachineState {
            tape: s.tape.update(s.data_pointer, ((s.tape[s.data_pointer] + k) % 256) as u8),
            code_pointer: k as int,
            ..s
        }),
    decreases k,
{
    if k == 0 {
        assert(s.tape.update(s.data_pointer, s.tape[s.data_pointer]) == s.tape);
    } else {
        lemma_increments_prefix(s, (k - 1) as nat);
        let v = s.tape[s.data_pointer] as int;
        let prev = run_spec(repeated(Bytecode::IncrementValue, 256), s, (k - 1) as nat);
        assert(prev.tape[s.data_pointer] == ((v + k - 1) % 256) as u8);
        assert((((v + k - 1) % 256) + 1) % 256 == (v + k) % 256) by (nonlinear_arith)
            requires
                k >= 1,
        ;
        assert(prev.tape.update(s.data_pointer, ((v + k) % 256) as u8) == s.tape.update(
            s.data_pointer,
            ((v + k) % 256) as u8,
        ));
    }
}

/// Incrementing a cell 256 times brings it back to the value it had: from a
/// fresh cell, back to 0.
pub proof fn lemma_increments_wrap(s: MachineState)
    requires
        0 <= s.data_pointer < s.tape.len(),
        s.code_pointer == 0,
    ensures
        run_spec(repeated(Bytecode::IncrementValue, 256), s, 256).tape == s.tape,
        halted(
            repeated(Bytecode::IncrementValue, 256),
            run_spec(repeated(Bytecode::IncrementValue, 256), s, 256),
        ),
{
    lemma_increments_prefix(s, 256);
    assert(s.tape.update(s.data_pointer, s.tape[s.data_pointer]) == s.tape);
}

proof fn lemma_pointer_prefix(s: MachineState, k: nat)
    requires
        s.data_pointer == 0,
        s.code_pointer == 0,
        k < s.tape.len(),
    ensures
        run_spec(repeated(Bytecode::IncrementPointer, s.tape.len()), s, k) == (MachineState {
            data_pointer: k as int,
            code_pointer: k as int,
            ..s
        }),
    decreases k,
{
    if k > 0 {
        lemma_pointer_prefix(s, (k - 1) as nat);
    }
}

/// On a tape of `N` cells, `N` moves right from cell 0 come back to cell 0,
/// and one move left from cell 0 goes to cell `N - 1`.
pub proof fn lemma_pointer_wraps(s: MachineState)
    requires
        s.tape.len() > 0,
        s.data_pointer == 0,
        s.code_pointer == 0,
    ensures
        run_spec(repeated(Bytecode::IncrementPointer, s.tape.len()), s, s.tape.len()).data_pointer
            == 0,
        run_spec(repeated(Bytecode::DecrementPointer, 1), s, 1).data_pointer == s.tape.len() - 1,
{
    lemma_pointer_prefix(s, (s.tape.len() - 1) as nat);
    assert(run_spec(repeated(Bytecode::DecrementPointer, 1), s, 0) == s);
}

/// Fetches, executes and advances over bytecode, on a tape of `TAPE_LEN` cells,
/// with `io` for input and output.
pub struct VirtualMachine<IO: StdInOut> {
    pub memory: Vec<u8>,
    pub mem_pointer: usize,
    pub code_pointer: usize,
    pub io: IO,
}

impl<IO: StdInOut> VirtualMachine<IO> {
    /// The tape has `TAPE_LEN` cells and the data pointer points at one.
    pub open spec fn wf(&self) -> bool {
        &&& self.memory@.len() == TAPE_LEN
        &&& 0 <= self.mem_pointer < TAPE_LEN
    }

    pub open spec fn state(&self) -> MachineState {
        MachineState {
            tape: self.memory@,
            data_pointer: self.mem_pointer as int,
            code_pointer: self.code_pointer as int,
            input: self.io.pending(),
            output: self.io.printed(),
        }
    }

    /// A machine with a zeroed tape and both pointers at 0.
    pub fn new(io: IO) -> (r: Self)
        ensures
            r.wf(),
            r.memory@ == Seq::new(TAPE_LEN as nat, |i: int| 0u8),
            r.mem_pointer == 0,
            r.code_pointer == 0,
            r.io == io,
    {
        let r = Self { memory: vec![0u8; TAPE_LEN], mem_pointer: 0, code_pointer: 0, io };
        proof {
            assert(r.memory@ == Seq::new(TAPE_LEN as nat, |i: int| 0u8));
        }
        r
    }

    /// Executes the instruction at the code pointer, if there is one.
    pub fn step(&mut self, code: &Vec<Bytecode>)
        requires
            old(self).wf(),
            jumps_in_range(code@),
        ensures
            final(self).wf(),
            final(self).state() == step(code@, old(self).state()),
    {
        if self.code_pointer >= code.len() {
            return;
        }
        let mp = self.mem_pointer;
        match code[self.code_pointer] {
            Bytecode::IncrementPointer => {
                if mp == self.memory.len() - 1 {
                    self.mem_pointer = 0;
                } else {
                    self.mem_pointer = mp + 1;
                }
            },
            Bytecode::DecrementPointer => {
                if mp == 0 {
                    self.mem_pointer = self.memory.len() - 1;
                } else {
                    self.mem_pointer = mp - 1;
                }
            },
            Bytecode::IncrementValue => {
                let v = self.memory[mp].wrapping_add(1);
                self.memory.set(mp, v);
            },
            Bytecode::DecrementValue => {
                let v = self.memory[mp].wrapping_sub(1);
                self.memory.set(mp, v);
            },
            Bytecode::OutputValue => {
                self.io.print(self.memory[mp] as char);
            },
            Bytecode::InputValue => {
                if let Ok(c) = self.io.read() {
                    self.memory.set(mp, c as u8);
                }
            },
            Bytecode::LoopStart { jump_to } => {
                if self.memory[mp] == 0 {
                    self.code_pointer = jump_to;
                }
            },
            Bytecode::LoopEnd { jump_to } => {
                if self.memory[mp] != 0 {
                    self.code_pointer = jump_to;
                }
            },
        }
        self.code_pointer = self.code_pointer + 1;
    }

    /// Runs `bytecodes` from its first instruction until the code pointer runs
    /// off its end, on the tape as it stands. Gives up after `STEP_LIMIT`
    /// instructions.
    pub fn run(&mut self, bytecodes: Vec<Bytecode>)
        requires
            old(self).wf(),
            jumps_in_range(bytecodes@),
        ensures
            final(self).wf(),
            runs_to(
                bytecodes@,
                MachineState { code_pointer: 0, ..old(self).state() },
                final(self).state(),
            ),
    {
        let ghost start = MachineState { code_pointer: 0, ..self.state() };
        self.code_pointer = 0;
        let mut budget: u64 = STEP_LIMIT;
        while self.code_pointer < bytecodes.len() && budget > 0
            invariant
                self.wf(),
                jumps_in_range(bytecodes@),
                self.state() == run_spec(bytecodes@, start, (STEP_LIMIT - budget) as nat),
            decreases budget,
        {
            self.step(&bytecodes);
            budget = budget - 1;
        }
    }
}

} // verus!
