use chip8_core::error::Chip8Error;
use chip8_core::instruction::Instruction;
use chip8_core::instruction::OpCode;

#[test]
fn decode_clear_and_return() {
    assert_eq!(Instruction::new(0x00E0).decode(), Ok(OpCode::ClearScreen));
    assert_eq!(Instruction::new(0x00EE).decode(), Ok(OpCode::Return));
}

#[test]
fn decode_jumps_and_call() {
    assert_eq!(Instruction::new(0x1300).decode(), Ok(OpCode::Jump(0x300)));
    assert_eq!(Instruction::new(0x2ABC).decode(), Ok(OpCode::Call(0xABC)));
    assert_eq!(Instruction::new(0xB123).decode(), Ok(OpCode::JumpV0(0x123)));
}

#[test]
fn decode_skips() {
    assert_eq!(Instruction::new(0x3A42).decode(), Ok(OpCode::SkipEqImm(0xA, 0x42)));
    assert_eq!(Instruction::new(0x4A42).decode(), Ok(OpCode::SkipNeqImm(0xA, 0x42)));
    assert_eq!(Instruction::new(0x5AB0).decode(), Ok(OpCode::SkipEqReg(0xA, 0xB)));
    assert_eq!(Instruction::new(0x9AB0).decode(), Ok(OpCode::SkipNeqReg(0xA, 0xB)));
    assert_eq!(Instruction::new(0xE19E).decode(), Ok(OpCode::SkipKeyDown(1)));
    assert_eq!(Instruction::new(0xE2A1).decode(), Ok(OpCode::SkipKeyUp(2)));
}

#[test]
fn decode_alu_family() {
    assert_eq!(Instruction::new(0x6A42).decode(), Ok(OpCode::SetImm(0xA, 0x42)));
    assert_eq!(Instruction::new(0x7A42).decode(), Ok(OpCode::AddImm(0xA, 0x42)));
    assert_eq!(Instruction::new(0x8AB0).decode(), Ok(OpCode::Copy(0xA, 0xB)));
    assert_eq!(Instruction::new(0x8AB1).decode(), Ok(OpCode::Or(0xA, 0xB)));
    assert_eq!(Instruction::new(0x8AB2).decode(), Ok(OpCode::And(0xA, 0xB)));
    assert_eq!(Instruction::new(0x8AB3).decode(), Ok(OpCode::Xor(0xA, 0xB)));
    assert_eq!(Instruction::new(0x8AB4).decode(), Ok(OpCode::AddReg(0xA, 0xB)));
    assert_eq!(Instruction::new(0x8AB5).decode(), Ok(OpCode::SubXY(0xA, 0xB)));
    assert_eq!(Instruction::new(0x8AB6).decode(), Ok(OpCode::ShR(0xA, 0xB)));
    assert_eq!(Instruction::new(0x8AB7).decode(), Ok(OpCode::SubYX(0xA, 0xB)));
    assert_eq!(Instruction::new(0x8ABE).decode(), Ok(OpCode::ShL(0xA, 0xB)));
}

#[test]
fn decode_index_draw_random() {
    assert_eq!(Instruction::new(0xA123).decode(), Ok(OpCode::SetIndex(0x123)));
    assert_eq!(Instruction::new(0xC177).decode(), Ok(OpCode::Random(1, 0x77)));
    assert_eq!(Instruction::new(0xD125).decode(), Ok(OpCode::DrawSprite(1, 2, 5)));
}

#[test]
fn decode_timer_and_memory_family() {
    assert_eq!(Instruction::new(0xF107).decode(), Ok(OpCode::GetDelay(1)));
    assert_eq!(Instruction::new(0xF10A).decode(), Ok(OpCode::WaitKey(1)));
    assert_eq!(Instruction::new(0xF115).decode(), Ok(OpCode::SetDelay(1)));
    assert_eq!(Instruction::new(0xF118).decode(), Ok(OpCode::SetSound(1)));
    assert_eq!(Instruction::new(0xF11E).decode(), Ok(OpCode::AddIndex(1)));
    assert_eq!(Instruction::new(0xF129).decode(), Ok(OpCode::FontAddr(1)));
    assert_eq!(Instruction::new(0xF133).decode(), Ok(OpCode::StoreBCD(1)));
    assert_eq!(Instruction::new(0xF155).decode(), Ok(OpCode::StoreRegs(1)));
    assert_eq!(Instruction::new(0xF165).decode(), Ok(OpCode::LoadRegs(1)));
}

#[test]
fn decode_unknown_words() {
    assert_eq!(Instruction::new(0x0000).decode(), Err(Chip8Error::UnknownOpcode(0x0000)));
    assert_eq!(Instruction::new(0x5AB1).decode(), Err(Chip8Error::UnknownOpcode(0x5AB1)));
    assert_eq!(Instruction::new(0x8AB8).decode(), Err(Chip8Error::UnknownOpcode(0x8AB8)));
    assert_eq!(Instruction::new(0xE1FF).decode(), Err(Chip8Error::UnknownOpcode(0xE1FF)));
    assert_eq!(Instruction::new(0xF1FF).decode(), Err(Chip8Error::UnknownOpcode(0xF1FF)));
}

#[test]
fn operand_field_extraction() {
    let instruction = Instruction::new(0xABCD);
    assert_eq!(instruction.word(), 0xABCD);
    assert_eq!(instruction.get_address(), 0xBCD);
    assert_eq!(instruction.get_vx(), 0xB);
    assert_eq!(instruction.get_vy(), 0xC);
    assert_eq!(instruction.get_8bconst(), 0xCD);
    assert_eq!(instruction.get_4bconst(), 0xD);
}
