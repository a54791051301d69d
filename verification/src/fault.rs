//! The ways in which the machine can refuse to go on.

use vstd::prelude::*;

verus! {

/// A fatal condition raised by the machine. Nothing is retried: the host
/// decides whether to halt or to reset.
#[derive(Clone, Copy, Debug, PartialEq, Eq, Structural)]
pub enum Fault {
    /// The fetched word is not an instruction. `pc` is the program counter
    /// when this is found out: the fetch has moved it past the word.
    UnknownInstruction { word: u16, pc: u16 },
    /// A call was made with sixteen return addresses already on the stack.
    StackOverflow,
    /// A return was made with no return address on the stack.
    StackUnderflow,
    /// An access reached past the last memory cell, past the last key, or
    /// the program counter left memory before a fetch.
    OutOfBounds,
}

} // verus!
