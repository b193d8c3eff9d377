//! An interpreter for the eight-instruction tape language: a scanner that keeps
//! the instruction characters of a source text, a compiler that resolves every
//! loop bracket to its partner, and a virtual machine that runs the result on a
//! tape of byte cells.
use vstd::prelude::*;

pub mod bytecode;
pub mod compiler;
pub mod interpret;
pub mod io;
pub mod scanner;
pub mod testing;
pub mod token;
pub mod vm;

pub use interpret::Interpreter;

verus! {

} // verus!
