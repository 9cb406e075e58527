//! A program image: a raw big-endian 16-bit instruction stream, loaded
//! verbatim into memory starting at `0x200`. Reading an image from storage
//! is the host's business; the library only takes the bytes.

use vstd::prelude::*;

verus! {

/// The raw bytes of a CHIP-8 program.
#[derive(Debug)]
pub struct Program {
    /// The instruction stream, headerless.
    pub data: Vec<u8>,
}

impl Program {
    /// Wraps raw program bytes.
    pub fn new(data: Vec<u8>) -> (p: Program)
        ensures
            p.data@ == data@,
    {
        Program { data }
    }
}

} // verus!
