use chip8_core::error::Chip8Error;
use chip8_core::memory::Memory;
use chip8_core::program::Program;
use chip8_core::stack::Stack;

#[test]
fn stack_sixteen_pushes_then_overflow() {
    let mut stack = Stack::new();
    for n in 0..16u16 {
        assert_eq!(stack.push(0x200 + n), Ok(()));
    }
    assert_eq!(stack.push(0x999), Err(Chip8Error::StackOverflow));
}

#[test]
fn stack_pop_empty_underflows() {
    let mut stack = Stack::new();
    assert_eq!(stack.pop(), Err(Chip8Error::StackUnderflow));
}

#[test]
fn stack_pops_last_in_first_out() {
    let mut stack = Stack::new();
    stack.push(0x200).unwrap();
    stack.push(0x300).unwrap();
    assert_eq!(stack.pop(), Ok(0x300));
    assert_eq!(stack.pop(), Ok(0x200));
    assert_eq!(stack.pop(), Err(Chip8Error::StackUnderflow));
}

#[test]
fn memory_write_read_last_address() {
    let mut memory = Memory::new();
    assert_eq!(memory.write(4095, 0xAB), Ok(()));
    assert_eq!(memory.read(4095), Ok(0xAB));
}

#[test]
fn memory_read_out_of_bounds() {
    let memory = Memory::new();
    assert_eq!(memory.read(4096), Err(Chip8Error::OutOfBounds(4096)));
}

#[test]
fn memory_write_out_of_bounds() {
    let mut memory = Memory::new();
    assert_eq!(memory.write(4096, 1), Err(Chip8Error::OutOfBounds(4096)));
}

#[test]
fn memory_read_dword_big_endian() {
    let mut memory = Memory::new();
    memory.write(0x200, 0x13).unwrap();
    memory.write(0x201, 0x57).unwrap();
    assert_eq!(memory.read_dword(0x200), Ok(0x1357));
    assert_eq!(memory.read_dword(4095), Err(Chip8Error::OutOfBounds(4096)));
}

#[test]
fn load_program_lays_out_font_gap_and_image() {
    let mut memory = Memory::new();
    let program = Program::new(vec![0x12, 0x34, 0x56]);
    assert_eq!(memory.load_program(&program), Ok(()));
    // Font table at the bottom of the reserved region.
    assert_eq!(memory.read(0), Ok(0xF0));
    assert_eq!(memory.read(79), Ok(0x80));
    // Zero padding up to the program start.
    assert_eq!(memory.read(80), Ok(0));
    assert_eq!(memory.read(0x1FF), Ok(0));
    // The image itself, verbatim from 0x200.
    assert_eq!(memory.read(0x200), Ok(0x12));
    assert_eq!(memory.read(0x201), Ok(0x34));
    assert_eq!(memory.read(0x202), Ok(0x56));
    assert_eq!(memory.read(0x203), Ok(0));
}

#[test]
fn load_program_rejects_overlong_image() {
    let mut memory = Memory::new();
    let exact_fit = Program::new(vec![0; 4096 - 0x200]);
    assert_eq!(memory.load_program(&exact_fit), Ok(()));
    let one_too_many = Program::new(vec![0; 4096 - 0x200 + 1]);
    assert_eq!(memory.load_program(&one_too_many), Err(Chip8Error::ProgramTooLarge));
}

#[test]
fn font_glyph_for_zero_is_a_ring() {
    let mut memory = Memory::new();
    memory.load_program(&Program::new(vec![])).unwrap();
    let glyph: Vec<u8> = (0..5).map(|i| memory.read(i).unwrap()).collect();
    assert_eq!(glyph, vec![0xF0, 0x90, 0x90, 0x90, 0xF0]);
}
