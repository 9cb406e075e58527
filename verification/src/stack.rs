//! The call stack: a fixed array of 16 return addresses and a stack
//! pointer. Its view is the sequence of live frames, oldest first.

use vstd::prelude::*;

use crate::error::Chip8Error;

verus! {

/// Number of return addresses the stack can hold.
pub const FRAME_COUNT: usize = 16;

/// Fixed-depth return-address stack for subroutine calls.
#[derive(Debug)]
pub struct Stack {
    frames: [u16; 16],
    sp: u8,
}

impl View for Stack {
    type V = Seq<u16>;

    /// The live frames, bottom of the stack first.
    closed spec fn view(&self) -> Seq<u16> {
        self.frames@.take(self.sp as int)
    }
}

impl Stack {
    #[verifier::type_invariant]
    closed spec fn inv(self) -> bool {
        self.sp <= FRAME_COUNT
    }

    /// An empty stack.
    pub fn new() -> (s: Stack)
        ensures
            s@ == Seq::<u16>::empty(),
    {
        Stack { frames: [0u16; 16], sp: 0 }
    }

    /// Pushes a return address; fails with `StackOverflow` when the stack
    /// already holds 16 frames, leaving the stack unchanged.
    pub fn push(&mut self, addr: u16) -> (r: Result<(), Chip8Error>)
        ensures
            old(self)@.len() < FRAME_COUNT ==> r == Ok::<(), Chip8Error>(())
                && final(self)@ == old(self)@.push(addr),
            old(self)@.len() >= FRAME_COUNT ==> r == Err::<(), Chip8Error>(Chip8Error::StackOverflow)
                && final(self)@ == old(self)@,
    {
        proof {
            use_type_invariant(&*self);
        }
        if self.sp as usize >= FRAME_COUNT {
            return Err(Chip8Error::StackOverflow);
        }
        self.frames[self.sp as usize] = addr;
        self.sp = self.sp + 1;
        proof {
            assert(self@ =~= old(self)@.push(addr));
        }
        Ok(())
    }

    /// Pops the most recently pushed return address; fails with
    /// `StackUnderflow` when the stack is empty, leaving it unchanged.
    pub fn pop(&mut self) -> (r: Result<u16, Chip8Error>)
        ensures
            old(self)@.len() > 0 ==> r == Ok::<u16, Chip8Error>(old(self)@.last())
                && final(self)@ == old(self)@.drop_last(),
            old(self)@.len() == 0 ==> r == Err::<u16, Chip8Error>(Chip8Error::StackUnderflow)
                && final(self)@ == old(self)@,
    {
        proof {
            use_type_invariant(&*self);
        }
        if self.sp == 0 {
            return Err(Chip8Error::StackUnderflow);
        }
        self.sp = self.sp - 1;
        let addr = self.frames[self.sp as usize];
        proof {
            assert(self@ =~= old(self)@.drop_last());
        }
        Ok(addr)
    }

    /// How many return addresses are currently stacked.
    pub fn depth(&self) -> (n: usize)
        ensures
            n == self@.len(),
    {
        proof {
            use_type_invariant(self);
        }
        self.sp as usize
    }
}

} // verus!
