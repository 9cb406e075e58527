//! The fatal conditions an emulated program can run into. None of them is
//! recoverable: the interpreter stops at the failing cycle and reports the
//! condition, including the offending address or opcode word.

use vstd::prelude::*;

verus! {

/// A fatal condition raised during loading or during one execution cycle.
#[derive(Clone, Copy, Debug, PartialEq, Eq, Structural)]
pub enum Chip8Error {
    /// A memory access addressed a byte outside `0..4096`.
    OutOfBounds(u16),
    /// A subroutine call was made with 16 return addresses already stacked.
    StackOverflow,
    /// A return was executed with no return address stacked.
    StackUnderflow,
    /// The decoder found no operation matching the fetched word.
    UnknownOpcode(u16),
    /// A program image would extend past the end of addressable memory.
    ProgramTooLarge,
}

} // verus!
