//! The instruction decoder: classifies a 16-bit opcode word into one of a
//! closed set of operations, or reports `UnknownOpcode`. Patterns are
//! matched most specific first, so the sub-opcodes of the `8xxx`, `Exxx`
//! and `Fxxx` families never collide with the broader patterns.

use vstd::prelude::*;

use crate::error::Chip8Error;

verus! {

/// One decoded operation with its operand fields: register indices are
/// 4-bit, immediates 8-bit, addresses 12-bit, sprite heights 4-bit.
#[derive(Clone, Copy, Debug, PartialEq, Eq, Structural)]
pub enum OpCode {
    /// `00E0`: clear the video memory.
    ClearScreen,
    /// `00EE`: pop the stack into the program counter.
    Return,
    /// `1nnn`: jump to `nnn`.
    Jump(u16),
    /// `2nnn`: call the subroutine at `nnn`.
    Call(u16),
    /// `3xkk`: skip the next instruction if `Vx == kk`.
    SkipEqImm(u8, u8),
    /// `4xkk`: skip the next instruction if `Vx != kk`.
    SkipNeqImm(u8, u8),
    /// `5xy0`: skip the next instruction if `Vx == Vy`.
    SkipEqReg(u8, u8),
    /// `6xkk`: set `Vx` to `kk`.
    SetImm(u8, u8),
    /// `7xkk`: add `kk` to `Vx`, wrapping, with no flag side effect.
    AddImm(u8, u8),
    /// `8xy0`: copy `Vy` into `Vx`.
    Copy(u8, u8),
    /// `8xy1`: bitwise or of `Vx` and `Vy` into `Vx`.
    Or(u8, u8),
    /// `8xy2`: bitwise and of `Vx` and `Vy` into `Vx`.
    And(u8, u8),
    /// `8xy3`: bitwise xor of `Vx` and `Vy` into `Vx`.
    Xor(u8, u8),
    /// `8xy4`: add `Vy` to `Vx`, wrapping; `VF` is the carry.
    AddReg(u8, u8),
    /// `8xy5`: `Vx - Vy` into `Vx`; `VF` is 1 exactly when `Vx >= Vy`.
    SubXY(u8, u8),
    /// `8xy6`: shift `Vy` right by one into `Vx`; `VF` is the shifted-out
    /// low bit.
    ShR(u8, u8),
    /// `8xy7`: `Vy - Vx` into `Vx`; `VF` is 1 exactly when `Vy >= Vx`.
    SubYX(u8, u8),
    /// `8xyE`: shift `Vy` left by one into `Vx`; `VF` is the shifted-out
    /// high bit.
    ShL(u8, u8),
    /// `9xy0`: skip the next instruction if `Vx != Vy`.
    SkipNeqReg(u8, u8),
    /// `Annn`: set the index register to `nnn`.
    SetIndex(u16),
    /// `Bnnn`: jump to `nnn + V0`.
    JumpV0(u16),
    /// `Cxkk`: set `Vx` to a random byte masked with `kk`.
    Random(u8, u8),
    /// `Dxyn`: blit the `n`-row sprite at the index register to
    /// `(Vx, Vy)`; `VF` is the collision flag.
    DrawSprite(u8, u8, u8),
    /// `Ex9E`: skip the next instruction if the key `Vx` (its low four
    /// bits select the key) is pressed.
    SkipKeyDown(u8),
    /// `ExA1`: skip the next instruction if the key `Vx` (its low four
    /// bits select the key) is not pressed.
    SkipKeyUp(u8),
    /// `Fx07`: set `Vx` to the delay timer.
    GetDelay(u8),
    /// `Fx0A`: wait until some key is pressed; `Vx` becomes that key id.
    WaitKey(u8),
    /// `Fx15`: set the delay timer to `Vx`.
    SetDelay(u8),
    /// `Fx18`: set the sound timer to `Vx`, if `Vx` is greater than 2.
    SetSound(u8),
    /// `Fx1E`: add `Vx` to the index register; `VF` flags growth past
    /// `0xFFF`.
    AddIndex(u8),
    /// `Fx29`: point the index register at the font glyph for `Vx`.
    FontAddr(u8),
    /// `Fx33`: write the three decimal digits of `Vx` at the index
    /// register.
    StoreBCD(u8),
    /// `Fx55`: write `V0..=Vx` to memory starting at the index register.
    StoreRegs(u8),
    /// `Fx65`: read `V0..=Vx` from memory starting at the index register.
    LoadRegs(u8),
}

/// The `nnn` address field: the low 12 bits.
pub open spec fn word_address(word: u16) -> u16 {
    word & 0x0FFF
}

/// The `x` register field: bits 8..12.
pub open spec fn word_vx(word: u16) -> u8 {
    ((word & 0x0F00) >> 8) as u8
}

/// The `y` register field: bits 4..8.
pub open spec fn word_vy(word: u16) -> u8 {
    ((word & 0x00F0) >> 4) as u8
}

/// The `kk` immediate field: the low byte.
pub open spec fn word_imm(word: u16) -> u8 {
    (word & 0x00FF) as u8
}

/// The `n` nibble field: the low 4 bits.
pub open spec fn word_nibble(word: u16) -> u8 {
    (word & 0x000F) as u8
}

/// The operation a 16-bit word decodes to, or `None` where no pattern
/// matches.
pub open spec fn decode_spec(word: u16) -> Option<OpCode> {
    if word == 0x00E0 {
        Some(OpCode::ClearScreen)
    } else if word == 0x00EE {
        Some(OpCode::Return)
    } else if word & 0xF000 == 0x1000 {
        Some(OpCode::Jump(word_address(word)))
    } else if word & 0xF000 == 0x2000 {
        Some(OpCode::Call(word_address(word)))
    } else if word & 0xF000 == 0x3000 {
        Some(OpCode::SkipEqImm(word_vx(word), word_imm(word)))
    } else if word & 0xF000 == 0x4000 {
        Some(OpCode::SkipNeqImm(word_vx(word), word_imm(word)))
    } else if word & 0xF00F == 0x5000 {
        Some(OpCode::SkipEqReg(word_vx(word), word_vy(word)))
    } else if word & 0xF000 == 0x6000 {
        Some(OpCode::SetImm(word_vx(word), word_imm(word)))
    } else if word & 0xF000 == 0x7000 {
        Some(OpCode::AddImm(word_vx(word), word_imm(word)))
    } else if word & 0xF00F == 0x8000 {
        Some(OpCode::Copy(word_vx(word), word_vy(word)))
    } else if word & 0xF00F == 0x8001 {
        Some(OpCode::Or(word_vx(word), word_vy(word)))
    } else if word & 0xF00F == 0x8002 {
        Some(OpCode::And(word_vx(word), word_vy(word)))
    } else if word & 0xF00F == 0x8003 {
        Some(OpCode::Xor(word_vx(word), word_vy(word)))
    } else if word & 0xF00F == 0x8004 {
        Some(OpCode::AddReg(word_vx(word), word_vy(word)))
    } else if word & 0xF00F == 0x8005 {
        Some(OpCode::SubXY(word_vx(word), word_vy(word)))
    } else if word & 0xF00F == 0x8006 {
        Some(OpCode::ShR(word_vx(word), word_vy(word)))
    } else if word & 0xF00F == 0x8007 {
        Some(OpCode::SubYX(word_vx(word), word_vy(word)))
    } else if word & 0xF00F == 0x800E {
        Some(OpCode::ShL(word_vx(word), word_vy(word)))
    } else if word & 0xF000 == 0x9000 {
        Some(OpCode::SkipNeqReg(word_vx(word), word_vy(word)))
    } else if word & 0xF000 == 0xA000 {
        Some(OpCode::SetIndex(word_address(word)))
    } else if word & 0xF000 == 0xB000 {
        Some(OpCode::JumpV0(word_address(word)))
    } else if word & 0xF000 == 0xC000 {
        Some(OpCode::Random(word_vx(word), word_imm(word)))
    } else if word & 0xF000 == 0xD000 {
        Some(OpCode::DrawSprite(word_vx(word), word_vy(word), word_nibble(word)))
    } else if word & 0xF0FF == 0xE09E {
        Some(OpCode::SkipKeyDown(word_vx(word)))
    } else if word & 0xF0FF == 0xE0A1 {
        Some(OpCode::SkipKeyUp(word_vx(word)))
    } else if word & 0xF0FF == 0xF007 {
        Some(OpCode::GetDelay(word_vx(word)))
    } else if word & 0xF0FF == 0xF00A {
        Some(OpCode::WaitKey(word_vx(word)))
    } else if word & 0xF0FF == 0xF015 {
        Some(OpCode::SetDelay(word_vx(word)))
    } else if word & 0xF0FF == 0xF018 {
        Some(OpCode::SetSound(word_vx(word)))
    } else if word & 0xF0FF == 0xF01E {
        Some(OpCode::AddIndex(word_vx(word)))
    } else if word & 0xF0FF == 0xF029 {
        Some(OpCode::FontAddr(word_vx(word)))
    } else if word & 0xF0FF == 0xF033 {
        Some(OpCode::StoreBCD(word_vx(word)))
    } else if word & 0xF0FF == 0xF055 {
        Some(OpCode::StoreRegs(word_vx(word)))
    } else if word & 0xF0FF == 0xF065 {
        Some(OpCode::LoadRegs(word_vx(word)))
    } else {
        None
    }
}

/// Whether an operation's operand fields are in range: register indices
/// are 4-bit and addresses 12-bit. Every decoded operation is; the
/// executor relies on it.
pub open spec fn op_wf(op: OpCode) -> bool {
    match op {
        OpCode::ClearScreen => true,
        OpCode::Return => true,
        OpCode::Jump(a) => a <= 0xFFF,
        OpCode::Call(a) => a <= 0xFFF,
        OpCode::SkipEqImm(x, _k) => x < 16,
        OpCode::SkipNeqImm(x, _k) => x < 16,
        OpCode::SkipEqReg(x, y) => x < 16 && y < 16,
        OpCode::SetImm(x, _k) => x < 16,
        OpCode::AddImm(x, _k) => x < 16,
        OpCode::Copy(x, y) => x < 16 && y < 16,
        OpCode::Or(x, y) => x < 16 && y < 16,
        OpCode::And(x, y) => x < 16 && y < 16,
        OpCode::Xor(x, y) => x < 16 && y < 16,
        OpCode::AddReg(x, y) => x < 16 && y < 16,
        OpCode::SubXY(x, y) => x < 16 && y < 16,
        OpCode::ShR(x, y) => x < 16 && y < 16,
        OpCode::SubYX(x, y) => x < 16 && y < 16,
        OpCode::ShL(x, y) => x < 16 && y < 16,
        OpCode::SkipNeqReg(x, y) => x < 16 && y < 16,
        OpCode::SetIndex(a) => a <= 0xFFF,
        OpCode::JumpV0(a) => a <= 0xFFF,
        OpCode::Random(x, _k) => x < 16,
        OpCode::DrawSprite(x, y, _n) => x < 16 && y < 16,
        OpCode::SkipKeyDown(x) => x < 16,
        OpCode::SkipKeyUp(x) => x < 16,
        OpCode::GetDelay(x) => x < 16,
        OpCode::WaitKey(x) => x < 16,
        OpCode::SetDelay(x) => x < 16,
        OpCode::SetSound(x) => x < 16,
        OpCode::AddIndex(x) => x < 16,
        OpCode::FontAddr(x) => x < 16,
        OpCode::StoreBCD(x) => x < 16,
        OpCode::StoreRegs(x) => x < 16,
        OpCode::LoadRegs(x) => x < 16,
    }
}

/// Every operation the decoder yields has well-formed operand fields.
pub proof fn lemma_decode_wf(word: u16)
    ensures
        decode_spec(word) matches Some(op) ==> op_wf(op),
{
    assert(word & 0x0FFF <= 0xFFF) by (bit_vector);
    assert((word & 0x0F00) >> 8 < 16) by (bit_vector);
    assert((word & 0x00F0) >> 4 < 16) by (bit_vector);
}

/// One fetched, not yet decoded 16-bit instruction word. Its view is
/// the word.
#[derive(Clone, Copy, Debug, PartialEq, Eq, Structural)]
pub struct Instruction {
    value: u16,
}

impl View for Instruction {
    type V = u16;

    closed spec fn view(&self) -> u16 {
        self.value
    }
}

impl Instruction {
    /// Wraps a fetched word.
    pub fn new(value: u16) -> (i: Instruction)
        ensures
            i@ == value,
    {
        Instruction { value }
    }

    /// The word itself.
    pub fn word(&self) -> (w: u16)
        ensures
            w == self@,
    {
        self.value
    }

    /// Classifies the word into its operation, or fails with
    /// `UnknownOpcode` carrying the word when no pattern matches.
    pub fn decode(&self) -> (r: Result<OpCode, Chip8Error>)
        ensures
            match decode_spec(self@) {
                Some(op) => r == Ok::<OpCode, Chip8Error>(op) && op_wf(op),
                None => r == Err::<OpCode, Chip8Error>(Chip8Error::UnknownOpcode(self@)),
            },
    {
        proof {
            lemma_decode_wf(self.value);
        }
        let w = self.value;
        if w == 0x00E0 {
            Ok(OpCode::ClearScreen)
        } else if w == 0x00EE {
            Ok(OpCode::Return)
        } else if w & 0xF000 == 0x1000 {
            Ok(OpCode::Jump(self.get_address()))
        } else if w & 0xF000 == 0x2000 {
            Ok(OpCode::Call(self.get_address()))
        } else if w & 0xF000 == 0x3000 {
            Ok(OpCode::SkipEqImm(self.get_vx(), self.get_8bconst()))
        } else if w & 0xF000 == 0x4000 {
            Ok(OpCode::SkipNeqImm(self.get_vx(), self.get_8bconst()))
        } else if w & 0xF00F == 0x5000 {
            Ok(OpCode::SkipEqReg(self.get_vx(), self.get_vy()))
        } else if w & 0xF000 == 0x6000 {
            Ok(OpCode::SetImm(self.get_vx(), self.get_8bconst()))
        } else if w & 0xF000 == 0x7000 {
            Ok(OpCode::AddImm(self.get_vx(), self.get_8bconst()))
        } else if w & 0xF00F == 0x8000 {
            Ok(OpCode::Copy(self.get_vx(), self.get_vy()))
        } else if w & 0xF00F == 0x8001 {
            Ok(OpCode::Or(self.get_vx(), self.get_vy()))
        } else if w & 0xF00F == 0x8002 {
            Ok(OpCode::And(self.get_vx(), self.get_vy()))
        } else if w & 0xF00F == 0x8003 {
            Ok(OpCode::Xor(self.get_vx(), self.get_vy()))
        } else if w & 0xF00F == 0x8004 {
            Ok(OpCode::AddReg(self.get_vx(), self.get_vy()))
        } else if w & 0xF00F == 0x8005 {
            Ok(OpCode::SubXY(self.get_vx(), self.get_vy()))
        } else if w & 0xF00F == 0x8006 {
            Ok(OpCode::ShR(self.get_vx(), self.get_vy()))
        } else if w & 0xF00F == 0x8007 {
            Ok(OpCode::SubYX(self.get_vx(), self.get_vy()))
        } else if w & 0xF00F == 0x800E {
            Ok(OpCode::ShL(self.get_vx(), self.get_vy()))
        } else if w & 0xF000 == 0x9000 {
            Ok(OpCode::SkipNeqReg(self.get_vx(), self.get_vy()))
        } else if w & 0xF000 == 0xA000 {
            Ok(OpCode::SetIndex(self.get_address()))
        } else if w & 0xF000 == 0xB000 {
            Ok(OpCode::JumpV0(self.get_address()))
        } else if w & 0xF000 == 0xC000 {
            Ok(OpCode::Random(self.get_vx(), self.get_8bconst()))
        } else if w & 0xF000 == 0xD000 {
            Ok(OpCode::DrawSprite(self.get_vx(), self.get_vy(), self.get_4bconst()))
        } else if w & 0xF0FF == 0xE09E {
            Ok(OpCode::SkipKeyDown(self.get_vx()))
        } else if w & 0xF0FF == 0xE0A1 {
            Ok(OpCode::SkipKeyUp(self.get_vx()))
        } else if w & 0xF0FF == 0xF007 {
            Ok(OpCode::GetDelay(self.get_vx()))
        } else if w & 0xF0FF == 0xF00A {
            Ok(OpCode::WaitKey(self.get_vx()))
        } else if w & 0xF0FF == 0xF015 {
            Ok(OpCode::SetDelay(self.get_vx()))
        } else if w & 0xF0FF == 0xF018 {
            Ok(OpCode::SetSound(self.get_vx()))
        } else if w & 0xF0FF == 0xF01E {
            Ok(OpCode::AddIndex(self.get_vx()))
        } else if w & 0xF0FF == 0xF029 {
            Ok(OpCode::FontAddr(self.get_vx()))
        } else if w & 0xF0FF == 0xF033 {
            Ok(OpCode::StoreBCD(self.get_vx()))
        } else if w & 0xF0FF == 0xF055 {
            Ok(OpCode::StoreRegs(self.get_vx()))
        } else if w & 0xF0FF == 0xF065 {
            Ok(OpCode::LoadRegs(self.get_vx()))
        } else {
            Err(Chip8Error::UnknownOpcode(w))
        }
    }

    /// The `nnn` address field: the low 12 bits.
    pub fn get_address(&self) -> (a: u16)
        ensures
            a == word_address(self@),
            a <= 0xFFF,
    {
        let w = self.value;
        proof {
            assert(w & 0x0FFF <= 0xFFF) by (bit_vector);
        }
        w & 0x0FFF
    }

    /// The `x` register field: bits 8..12.
    pub fn get_vx(&self) -> (x: u8)
        ensures
            x == word_vx(self@),
            x < 16,
    {
        let w = self.value;
        proof {
            assert((w & 0x0F00) >> 8 < 16) by (bit_vector);
        }
        ((w & 0x0F00) >> 8) as u8
    }

    /// The `y` register field: bits 4..8.
    pub fn get_vy(&self) -> (y: u8)
        ensures
            y == word_vy(self@),
            y < 16,
    {
        let w = self.value;
        proof {
            assert((w & 0x00F0) >> 4 < 16) by (bit_vector);
        }
        ((w & 0x00F0) >> 4) as u8
    }

    /// The `kk` immediate field: the low byte.
    pub fn get_8bconst(&self) -> (k: u8)
        ensures
            k == word_imm(self@),
    {
        (self.value & 0x00FF) as u8
    }

    /// The `n` nibble field: the low 4 bits.
    pub fn get_4bconst(&self) -> (n: u8)
        ensures
            n == word_nibble(self@),
            n < 16,
    {
        let w = self.value;
        proof {
            assert(w & 0x000F < 16) by (bit_vector);
        }
        (w & 0x000F) as u8
    }
}

} // verus!
