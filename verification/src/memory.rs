//! The addressable memory: 4096 bytes. The low region `0x000..0x200` is
//! reserved; the built-in font table sits at its bottom and program code is
//! loaded from `0x200` on. Every access is bounds-checked, and an access
//! outside `0..4096` is reported as a fatal `OutOfBounds` condition.

use vstd::prelude::*;

use crate::error::Chip8Error;
use crate::program::Program;

verus! {

broadcast use vstd::array::group_array_axioms;

/// Number of addressable bytes.
pub const MEMORY_SIZE: usize = 4096;

/// First address at which program code is placed.
pub const PROGRAM_START: usize = 0x200;

/// Bytes per font glyph: each hex digit is drawn as five sprite rows.
pub const FONT_GLYPH_SIZE: usize = 5;

/// The built-in font table: 16 glyphs of 5 bytes each, one glyph per hex
/// digit, resident at the bottom of the reserved region.
pub open spec fn font_table_spec() -> Seq<u8> {
    seq![
        0xF0u8, 0x90, 0x90, 0x90, 0xF0, // 0
        0x20, 0x60, 0x20, 0x20, 0x70, // 1
        0xF0, 0x10, 0xF0, 0x80, 0xF0, // 2
        0xF0, 0x10, 0xF0, 0x10, 0xF0, // 3
        0x90, 0x90, 0xF0, 0x10, 0x10, // 4
        0xF0, 0x80, 0xF0, 0x10, 0xF0, // 5
        0xF0, 0x80, 0xF0, 0x90, 0xF0, // 6
        0xF0, 0x10, 0x20, 0x40, 0x40, // 7
        0xF0, 0x90, 0xF0, 0x90, 0xF0, // 8
        0xF0, 0x90, 0xF0, 0x10, 0xF0, // 9
        0xF0, 0x90, 0xF0, 0x90, 0x90, // A
        0xE0, 0x90, 0xE0, 0x90, 0xE0, // B
        0xF0, 0x80, 0x80, 0x80, 0xF0, // C
        0xE0, 0x90, 0x90, 0x90, 0xE0, // D
        0xF0, 0x80, 0xF0, 0x80, 0xF0, // E
        0xF0, 0x80, 0xF0, 0x80, 0x80, // F
    ]
}

/// The memory contents after loading `program` into fresh or existing
/// memory `mem`: font table, zero padding up to `0x200`, the program image,
/// and the previous contents past its end.
pub open spec fn loaded_memory(mem: Seq<u8>, program: Seq<u8>) -> Seq<u8> {
    Seq::new(MEMORY_SIZE as nat, |i: int| {
        if i < 80 {
            font_table_spec()[i]
        } else if i < PROGRAM_START {
            0u8
        } else if i < PROGRAM_START + program.len() {
            program[i - PROGRAM_START]
        } else {
            mem[i]
        }
    })
}

/// The font table as bytes.
fn font_table() -> (r: Vec<u8>)
    ensures
        r@ == font_table_spec(),
{
    let r: Vec<u8> = vec![
        0xF0u8, 0x90, 0x90, 0x90, 0xF0, // 0
        0x20, 0x60, 0x20, 0x20, 0x70, // 1
        0xF0, 0x10, 0xF0, 0x80, 0xF0, // 2
        0xF0, 0x10, 0xF0, 0x10, 0xF0, // 3
        0x90, 0x90, 0xF0, 0x10, 0x10, // 4
        0xF0, 0x80, 0xF0, 0x10, 0xF0, // 5
        0xF0, 0x80, 0xF0, 0x90, 0xF0, // 6
        0xF0, 0x10, 0x20, 0x40, 0x40, // 7
        0xF0, 0x90, 0xF0, 0x90, 0xF0, // 8
        0xF0, 0x90, 0xF0, 0x10, 0xF0, // 9
        0xF0, 0x90, 0xF0, 0x90, 0x90, // A
        0xE0, 0x90, 0xE0, 0x90, 0xE0, // B
        0xF0, 0x80, 0x80, 0x80, 0xF0, // C
        0xE0, 0x90, 0x90, 0x90, 0xE0, // D
        0xF0, 0x80, 0xF0, 0x80, 0xF0, // E
        0xF0, 0x80, 0xF0, 0x80, 0x80, // F
    ];
    proof {
        assert(r@ =~= font_table_spec());
    }
    r
}

/// Flat addressable byte array. Its view is the 4096-byte sequence of its
/// contents.
#[derive(Debug)]
pub struct Memory {
    data: [u8; 4096],
}

impl View for Memory {
    type V = Seq<u8>;

    closed spec fn view(&self) -> Seq<u8> {
        self.data@
    }
}

impl Memory {
    /// Memory always holds exactly 4096 bytes.
    pub proof fn lemma_len(&self)
        ensures
            self@.len() == MEMORY_SIZE,
    {
    }

    /// Fresh memory, zero-filled.
    pub fn new() -> (m: Memory)
        ensures
            m@ == Seq::new(MEMORY_SIZE as nat, |i: int| 0u8),
    {
        let m = Memory { data: [0u8; 4096] };
        proof {
            assert(m@ =~= Seq::new(MEMORY_SIZE as nat, |i: int| 0u8));
        }
        m
    }

    /// Copies the font table into the low reserved region, zero-fills the
    /// gap up to `0x200`, then copies the program bytes from `0x200` on.
    /// A program that would extend past the end of memory is rejected with
    /// `ProgramTooLarge`, leaving memory unchanged.
    pub fn load_program(&mut self, program: &Program) -> (r: Result<(), Chip8Error>)
        ensures
            r is Ok <==> PROGRAM_START + program.data@.len() <= MEMORY_SIZE,
            r is Ok ==> final(self)@ == loaded_memory(old(self)@, program.data@),
            r is Err ==> r == Err::<(), Chip8Error>(Chip8Error::ProgramTooLarge)
                && final(self)@ == old(self)@,
    {
        if program.data.len() > MEMORY_SIZE - PROGRAM_START {
            return Err(Chip8Error::ProgramTooLarge);
        }
        let font = font_table();
        let mut i: usize = 0;
        while i < 80
            invariant
                i <= 80,
                font@ == font_table_spec(),
                self@.len() == MEMORY_SIZE,
                forall|j: int| 0 <= j < i ==> self@[j] == font_table_spec()[j],
                forall|j: int| i <= j < MEMORY_SIZE ==> self@[j] == old(self)@[j],
            decreases 80 - i,
        {
            self.data[i] = font[i];
            i = i + 1;
        }
        let mut i: usize = 80;
        while i < PROGRAM_START
            invariant
                80 <= i <= PROGRAM_START,
                self@.len() == MEMORY_SIZE,
                forall|j: int| 0 <= j < 80 ==> self@[j] == font_table_spec()[j],
                forall|j: int| 80 <= j < i ==> self@[j] == 0u8,
                forall|j: int| i <= j < MEMORY_SIZE ==> self@[j] == old(self)@[j],
            decreases PROGRAM_START - i,
        {
            self.data[i] = 0;
            i = i + 1;
        }
        let len = program.data.len();
        let mut i: usize = 0;
        while i < len
            invariant
                i <= len,
                len == program.data@.len(),
                PROGRAM_START + len <= MEMORY_SIZE,
                self@.len() == MEMORY_SIZE,
                forall|j: int| 0 <= j < 80 ==> self@[j] == font_table_spec()[j],
                forall|j: int| 80 <= j < PROGRAM_START ==> self@[j] == 0u8,
                forall|j: int| PROGRAM_START <= j < PROGRAM_START + i ==> self@[j]
                    == program.data@[j - PROGRAM_START],
                forall|j: int| PROGRAM_START + i <= j < MEMORY_SIZE ==> self@[j] == old(self)@[j],
            decreases len - i,
        {
            self.data[PROGRAM_START + i] = program.data[i];
            i = i + 1;
        }
        proof {
            assert(self@ =~= loaded_memory(old(self)@, program.data@));
        }
        Ok(())
    }

    /// Reads the byte at `address`; fails with `OutOfBounds` for an address
    /// outside `0..4096`.
    pub fn read(&self, address: u16) -> (r: Result<u8, Chip8Error>)
        ensures
            address < MEMORY_SIZE ==> r == Ok::<u8, Chip8Error>(self@[address as int]),
            address >= MEMORY_SIZE ==> r == Err::<u8, Chip8Error>(Chip8Error::OutOfBounds(address)),
    {
        if (address as usize) < MEMORY_SIZE {
            Ok(self.data[address as usize])
        } else {
            Err(Chip8Error::OutOfBounds(address))
        }
    }

    /// Composes the two consecutive bytes at `address` big-endian; both
    /// `address` and `address + 1` must be in range, and the first address
    /// out of range is reported.
    pub fn read_dword(&self, address: u16) -> (r: Result<u16, Chip8Error>)
        ensures
            address + 1 < MEMORY_SIZE ==> r == Ok::<u16, Chip8Error>(
                (self@[address as int] as u16) << 8 | self@[address as int + 1] as u16,
            ),
            address >= MEMORY_SIZE ==> r == Err::<u16, Chip8Error>(Chip8Error::OutOfBounds(address)),
            address < MEMORY_SIZE && address + 1 >= MEMORY_SIZE ==> r == Err::<u16, Chip8Error>(
                Chip8Error::OutOfBounds((address + 1) as u16),
            ),
    {
        let high = match self.read(address) {
            Ok(b) => b,
            Err(e) => {
                return Err(e);
            },
        };
        let low = match self.read(address + 1) {
            Ok(b) => b,
            Err(e) => {
                return Err(e);
            },
        };
        Ok((high as u16) << 8 | low as u16)
    }

    /// Writes `value` at `address`; fails with `OutOfBounds` for an address
    /// outside `0..4096`, leaving memory unchanged.
    pub fn write(&mut self, address: u16, value: u8) -> (r: Result<(), Chip8Error>)
        ensures
            address < MEMORY_SIZE ==> r == Ok::<(), Chip8Error>(())
                && final(self)@ == old(self)@.update(address as int, value),
            address >= MEMORY_SIZE ==> r == Err::<(), Chip8Error>(Chip8Error::OutOfBounds(address))
                && final(self)@ == old(self)@,
    {
        if (address as usize) < MEMORY_SIZE {
            self.data[address as usize] = value;
            Ok(())
        } else {
            Err(Chip8Error::OutOfBounds(address))
        }
    }

    /// Writes `value` at a caller-verified in-range address.
    pub(crate) fn set_byte(&mut self, address: usize, value: u8)
        requires
            address < MEMORY_SIZE,
        ensures
            final(self)@ == old(self)@.update(address as int, value),
    {
        self.data[address] = value;
    }

    /// The byte at a caller-verified in-range address.
    pub(crate) fn byte_at(&self, address: usize) -> (b: u8)
        requires
            address < MEMORY_SIZE,
        ensures
            b == self@[address as int],
    {
        self.data[address]
    }
}

} // verus!
