use vstd::prelude::*;

verus! {

/// One instruction of the virtual machine. A loop instruction holds the index,
/// in the same instruction sequence, of its partner.
#[derive(Debug, Clone, Copy, PartialEq, Eq, Structural)]
pub enum Bytecode {
    IncrementPointer,
    DecrementPointer,
    IncrementValue,
    DecrementValue,
    OutputValue,
    InputValue,
    LoopStart { jump_to: usize },
    LoopEnd { jump_to: usize },
}

} // verus!
