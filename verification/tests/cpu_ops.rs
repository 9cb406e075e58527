use chip8_core::cpu::Cpu;
use chip8_core::error::Chip8Error;
use chip8_core::instruction::OpCode;
use chip8_core::keyboard::HexKey;
use chip8_core::keyboard::Keyboard;
use chip8_core::memory::Memory;
use chip8_core::vram::VideoSink;
use chip8_core::vram::Vram;

fn machine_parts() -> (Cpu, Memory, Vram, Keyboard, VideoSink) {
    (Cpu::new(), Memory::new(), Vram::new(), Keyboard::new(), VideoSink::new())
}

fn run(
    cpu: &mut Cpu,
    memory: &mut Memory,
    vram: &mut Vram,
    keyboard: &Keyboard,
    sink: &mut VideoSink,
    op: OpCode,
) {
    cpu.execute(&op, memory, vram, keyboard, sink).unwrap();
}

#[test]
fn add_imm_wraps_and_leaves_flag_alone() {
    let (mut cpu, mut mem, mut vram, kb, mut sink) = machine_parts();
    run(&mut cpu, &mut mem, &mut vram, &kb, &mut sink, OpCode::SetImm(15, 9));
    run(&mut cpu, &mut mem, &mut vram, &kb, &mut sink, OpCode::SetImm(0, 250));
    run(&mut cpu, &mut mem, &mut vram, &kb, &mut sink, OpCode::AddImm(0, 10));
    assert_eq!(cpu.register(0), 4);
    // No flag side effect: VF keeps the value planted before.
    assert_eq!(cpu.register(15), 9);
}

#[test]
fn add_reg_sets_carry_flag() {
    let (mut cpu, mut mem, mut vram, kb, mut sink) = machine_parts();
    run(&mut cpu, &mut mem, &mut vram, &kb, &mut sink, OpCode::SetImm(0, 200));
    run(&mut cpu, &mut mem, &mut vram, &kb, &mut sink, OpCode::SetImm(1, 100));
    run(&mut cpu, &mut mem, &mut vram, &kb, &mut sink, OpCode::AddReg(0, 1));
    assert_eq!(cpu.register(0), 44);
    assert_eq!(cpu.register(15), 1);
    run(&mut cpu, &mut mem, &mut vram, &kb, &mut sink, OpCode::SetImm(2, 3));
    run(&mut cpu, &mut mem, &mut vram, &kb, &mut sink, OpCode::SetImm(3, 4));
    run(&mut cpu, &mut mem, &mut vram, &kb, &mut sink, OpCode::AddReg(2, 3));
    assert_eq!(cpu.register(2), 7);
    assert_eq!(cpu.register(15), 0);
}

#[test]
fn sub_xy_without_borrow() {
    let (mut cpu, mut mem, mut vram, kb, mut sink) = machine_parts();
    run(&mut cpu, &mut mem, &mut vram, &kb, &mut sink, OpCode::SetImm(0, 5));
    run(&mut cpu, &mut mem, &mut vram, &kb, &mut sink, OpCode::SetImm(1, 3));
    run(&mut cpu, &mut mem, &mut vram, &kb, &mut sink, OpCode::SubXY(0, 1));
    assert_eq!(cpu.register(0), 2);
    assert_eq!(cpu.register(15), 1);
}

#[test]
fn sub_xy_with_borrow_wraps() {
    let (mut cpu, mut mem, mut vram, kb, mut sink) = machine_parts();
    run(&mut cpu, &mut mem, &mut vram, &kb, &mut sink, OpCode::SetImm(0, 3));
    run(&mut cpu, &mut mem, &mut vram, &kb, &mut sink, OpCode::SetImm(1, 5));
    run(&mut cpu, &mut mem, &mut vram, &kb, &mut sink, OpCode::SubXY(0, 1));
    assert_eq!(cpu.register(0), 254);
    assert_eq!(cpu.register(15), 0);
}

#[test]
fn sub_yx_subtracts_the_other_way() {
    let (mut cpu, mut mem, mut vram, kb, mut sink) = machine_parts();
    run(&mut cpu, &mut mem, &mut vram, &kb, &mut sink, OpCode::SetImm(0, 3));
    run(&mut cpu, &mut mem, &mut vram, &kb, &mut sink, OpCode::SetImm(1, 5));
    run(&mut cpu, &mut mem, &mut vram, &kb, &mut sink, OpCode::SubYX(0, 1));
    assert_eq!(cpu.register(0), 2);
    assert_eq!(cpu.register(15), 1);
}

#[test]
fn bitwise_ops() {
    let (mut cpu, mut mem, mut vram, kb, mut sink) = machine_parts();
    run(&mut cpu, &mut mem, &mut vram, &kb, &mut sink, OpCode::SetImm(0, 0b1100));
    run(&mut cpu, &mut mem, &mut vram, &kb, &mut sink, OpCode::SetImm(1, 0b1010));
    run(&mut cpu, &mut mem, &mut vram, &kb, &mut sink, OpCode::Or(0, 1));
    assert_eq!(cpu.register(0), 0b1110);
    run(&mut cpu, &mut mem, &mut vram, &kb, &mut sink, OpCode::And(0, 1));
    assert_eq!(cpu.register(0), 0b1010);
    run(&mut cpu, &mut mem, &mut vram, &kb, &mut sink, OpCode::Xor(0, 1));
    assert_eq!(cpu.register(0), 0);
    run(&mut cpu, &mut mem, &mut vram, &kb, &mut sink, OpCode::Copy(0, 1));
    assert_eq!(cpu.register(0), 0b1010);
}

#[test]
fn shifts_capture_shifted_out_bit() {
    let (mut cpu, mut mem, mut vram, kb, mut sink) = machine_parts();
    run(&mut cpu, &mut mem, &mut vram, &kb, &mut sink, OpCode::SetImm(1, 0b101));
    run(&mut cpu, &mut mem, &mut vram, &kb, &mut sink, OpCode::ShR(0, 1));
    assert_eq!(cpu.register(0), 0b10);
    assert_eq!(cpu.register(15), 1);
    run(&mut cpu, &mut mem, &mut vram, &kb, &mut sink, OpCode::SetImm(1, 0b1000_0001));
    run(&mut cpu, &mut mem, &mut vram, &kb, &mut sink, OpCode::ShL(0, 1));
    assert_eq!(cpu.register(0), 0b10);
    assert_eq!(cpu.register(15), 1);
}

#[test]
fn jump_sets_pc_exactly() {
    let (mut cpu, mut mem, mut vram, kb, mut sink) = machine_parts();
    run(&mut cpu, &mut mem, &mut vram, &kb, &mut sink, OpCode::Jump(0x300));
    assert_eq!(cpu.pc(), 0x300);
}

#[test]
fn jump_v0_offsets_by_register() {
    let (mut cpu, mut mem, mut vram, kb, mut sink) = machine_parts();
    run(&mut cpu, &mut mem, &mut vram, &kb, &mut sink, OpCode::SetImm(0, 5));
    run(&mut cpu, &mut mem, &mut vram, &kb, &mut sink, OpCode::JumpV0(0x300));
    assert_eq!(cpu.pc(), 0x305);
}

#[test]
fn call_then_return_resumes_after_call() {
    let (mut cpu, mut mem, mut vram, kb, mut sink) = machine_parts();
    assert_eq!(cpu.pc(), 0x200);
    run(&mut cpu, &mut mem, &mut vram, &kb, &mut sink, OpCode::Call(0x300));
    assert_eq!(cpu.pc(), 0x300);
    run(&mut cpu, &mut mem, &mut vram, &kb, &mut sink, OpCode::Return);
    assert_eq!(cpu.pc(), 0x202);
}

#[test]
fn return_on_empty_stack_underflows() {
    let (mut cpu, mut mem, mut vram, kb, mut sink) = machine_parts();
    let r = cpu.execute(&OpCode::Return, &mut mem, &mut vram, &kb, &mut sink);
    assert_eq!(r, Err(Chip8Error::StackUnderflow));
}

#[test]
fn seventeenth_nested_call_overflows() {
    let (mut cpu, mut mem, mut vram, kb, mut sink) = machine_parts();
    for _ in 0..16 {
        cpu.execute(&OpCode::Call(0x300), &mut mem, &mut vram, &kb, &mut sink).unwrap();
    }
    let r = cpu.execute(&OpCode::Call(0x300), &mut mem, &mut vram, &kb, &mut sink);
    assert_eq!(r, Err(Chip8Error::StackOverflow));
}

#[test]
fn skip_eq_imm_advances_by_four_on_match() {
    let (mut cpu, mut mem, mut vram, kb, mut sink) = machine_parts();
    run(&mut cpu, &mut mem, &mut vram, &kb, &mut sink, OpCode::SetImm(0, 5));
    let pc = cpu.pc();
    run(&mut cpu, &mut mem, &mut vram, &kb, &mut sink, OpCode::SkipEqImm(0, 5));
    assert_eq!(cpu.pc(), pc + 4);
    let pc = cpu.pc();
    run(&mut cpu, &mut mem, &mut vram, &kb, &mut sink, OpCode::SkipEqImm(0, 6));
    assert_eq!(cpu.pc(), pc + 2);
}

#[test]
fn skip_reg_comparisons() {
    let (mut cpu, mut mem, mut vram, kb, mut sink) = machine_parts();
    run(&mut cpu, &mut mem, &mut vram, &kb, &mut sink, OpCode::SetImm(0, 5));
    run(&mut cpu, &mut mem, &mut vram, &kb, &mut sink, OpCode::SetImm(1, 5));
    let pc = cpu.pc();
    run(&mut cpu, &mut mem, &mut vram, &kb, &mut sink, OpCode::SkipEqReg(0, 1));
    assert_eq!(cpu.pc(), pc + 4);
    let pc = cpu.pc();
    run(&mut cpu, &mut mem, &mut vram, &kb, &mut sink, OpCode::SkipNeqReg(0, 1));
    assert_eq!(cpu.pc(), pc + 2);
    let pc = cpu.pc();
    run(&mut cpu, &mut mem, &mut vram, &kb, &mut sink, OpCode::SkipNeqImm(0, 7));
    assert_eq!(cpu.pc(), pc + 4);
}

#[test]
fn skip_on_key_state() {
    let (mut cpu, mut mem, mut vram, mut kb, mut sink) = machine_parts();
    kb.update_key(HexKey::X7, true);
    run(&mut cpu, &mut mem, &mut vram, &kb, &mut sink, OpCode::SetImm(0, 7));
    let pc = cpu.pc();
    run(&mut cpu, &mut mem, &mut vram, &kb, &mut sink, OpCode::SkipKeyDown(0));
    assert_eq!(cpu.pc(), pc + 4);
    let pc = cpu.pc();
    run(&mut cpu, &mut mem, &mut vram, &kb, &mut sink, OpCode::SkipKeyUp(0));
    assert_eq!(cpu.pc(), pc + 2);
}

#[test]
fn delay_timer_set_and_get() {
    let (mut cpu, mut mem, mut vram, kb, mut sink) = machine_parts();
    run(&mut cpu, &mut mem, &mut vram, &kb, &mut sink, OpCode::SetImm(0, 42));
    run(&mut cpu, &mut mem, &mut vram, &kb, &mut sink, OpCode::SetDelay(0));
    assert_eq!(cpu.delay(), 42);
    run(&mut cpu, &mut mem, &mut vram, &kb, &mut sink, OpCode::GetDelay(1));
    assert_eq!(cpu.register(1), 42);
}

#[test]
fn set_sound_ignores_values_up_to_two() {
    // The sound timer keeps its value unless the new one exceeds 2.
    let (mut cpu, mut mem, mut vram, kb, mut sink) = machine_parts();
    run(&mut cpu, &mut mem, &mut vram, &kb, &mut sink, OpCode::SetImm(0, 2));
    run(&mut cpu, &mut mem, &mut vram, &kb, &mut sink, OpCode::SetSound(0));
    assert_eq!(cpu.sound(), 0);
    run(&mut cpu, &mut mem, &mut vram, &kb, &mut sink, OpCode::SetImm(0, 5));
    run(&mut cpu, &mut mem, &mut vram, &kb, &mut sink, OpCode::SetSound(0));
    assert_eq!(cpu.sound(), 5);
}

#[test]
fn add_index_flags_growth_past_fff() {
    let (mut cpu, mut mem, mut vram, kb, mut sink) = machine_parts();
    run(&mut cpu, &mut mem, &mut vram, &kb, &mut sink, OpCode::SetIndex(0xFFF));
    run(&mut cpu, &mut mem, &mut vram, &kb, &mut sink, OpCode::SetImm(0, 0xFF));
    run(&mut cpu, &mut mem, &mut vram, &kb, &mut sink, OpCode::AddIndex(0));
    assert_eq!(cpu.index(), 0x10FE);
    assert_eq!(cpu.register(15), 1);
    run(&mut cpu, &mut mem, &mut vram, &kb, &mut sink, OpCode::SetIndex(0x100));
    run(&mut cpu, &mut mem, &mut vram, &kb, &mut sink, OpCode::AddIndex(0));
    assert_eq!(cpu.index(), 0x1FF);
    assert_eq!(cpu.register(15), 0);
}

#[test]
fn font_addr_points_at_glyph() {
    let (mut cpu, mut mem, mut vram, kb, mut sink) = machine_parts();
    run(&mut cpu, &mut mem, &mut vram, &kb, &mut sink, OpCode::SetImm(0, 0xA));
    run(&mut cpu, &mut mem, &mut vram, &kb, &mut sink, OpCode::FontAddr(0));
    assert_eq!(cpu.index(), 50);
}

#[test]
fn store_bcd_writes_three_digits() {
    let (mut cpu, mut mem, mut vram, kb, mut sink) = machine_parts();
    run(&mut cpu, &mut mem, &mut vram, &kb, &mut sink, OpCode::SetImm(0, 254));
    run(&mut cpu, &mut mem, &mut vram, &kb, &mut sink, OpCode::SetIndex(0x300));
    run(&mut cpu, &mut mem, &mut vram, &kb, &mut sink, OpCode::StoreBCD(0));
    assert_eq!(mem.read(0x300), Ok(2));
    assert_eq!(mem.read(0x301), Ok(5));
    assert_eq!(mem.read(0x302), Ok(4));
}

#[test]
fn store_bcd_near_end_of_memory_fails() {
    let (mut cpu, mut mem, mut vram, kb, mut sink) = machine_parts();
    run(&mut cpu, &mut mem, &mut vram, &kb, &mut sink, OpCode::SetIndex(0xFFE));
    let r = cpu.execute(&OpCode::StoreBCD(0), &mut mem, &mut vram, &kb, &mut sink);
    assert_eq!(r, Err(Chip8Error::OutOfBounds(4096)));
}

#[test]
fn store_and_load_registers_advance_index() {
    let (mut cpu, mut mem, mut vram, kb, mut sink) = machine_parts();
    run(&mut cpu, &mut mem, &mut vram, &kb, &mut sink, OpCode::SetImm(0, 11));
    run(&mut cpu, &mut mem, &mut vram, &kb, &mut sink, OpCode::SetImm(1, 22));
    run(&mut cpu, &mut mem, &mut vram, &kb, &mut sink, OpCode::SetImm(2, 33));
    run(&mut cpu, &mut mem, &mut vram, &kb, &mut sink, OpCode::SetIndex(0x300));
    run(&mut cpu, &mut mem, &mut vram, &kb, &mut sink, OpCode::StoreRegs(2));
    assert_eq!(mem.read(0x300), Ok(11));
    assert_eq!(mem.read(0x301), Ok(22));
    assert_eq!(mem.read(0x302), Ok(33));
    assert_eq!(cpu.index(), 0x303);
    run(&mut cpu, &mut mem, &mut vram, &kb, &mut sink, OpCode::SetImm(0, 0));
    run(&mut cpu, &mut mem, &mut vram, &kb, &mut sink, OpCode::SetImm(1, 0));
    run(&mut cpu, &mut mem, &mut vram, &kb, &mut sink, OpCode::SetIndex(0x300));
    run(&mut cpu, &mut mem, &mut vram, &kb, &mut sink, OpCode::LoadRegs(1));
    assert_eq!(cpu.register(0), 11);
    assert_eq!(cpu.register(1), 22);
    // V2 untouched by a load up to V1.
    assert_eq!(cpu.register(2), 33);
    assert_eq!(cpu.index(), 0x302);
}

#[test]
fn random_respects_mask() {
    let (mut cpu, mut mem, mut vram, kb, mut sink) = machine_parts();
    for _ in 0..32 {
        run(&mut cpu, &mut mem, &mut vram, &kb, &mut sink, OpCode::Random(0, 0x0F));
        assert_eq!(cpu.register(0) & !0x0F, 0);
    }
    run(&mut cpu, &mut mem, &mut vram, &kb, &mut sink, OpCode::Random(0, 0));
    assert_eq!(cpu.register(0), 0);
}
