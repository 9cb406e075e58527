use chip8_core::audio::AudioEvent;
use chip8_core::audio::AudioSink;
use chip8_core::error::Chip8Error;
use chip8_core::keyboard::HexKey;
use chip8_core::keyboard::Keyboard;
use chip8_core::machine::Chip8;
use chip8_core::program::Program;
use chip8_core::vram::VideoSink;

fn machine_with(program: Vec<u8>) -> (Chip8, Keyboard, VideoSink, AudioSink) {
    let mut machine = Chip8::new();
    machine.load_program(&Program::new(program)).unwrap();
    (machine, Keyboard::new(), VideoSink::new(), AudioSink::new())
}

#[test]
fn draw_sprite_sets_pixels_then_xor_cancels() {
    // 00E0 clear; A310 I := 0x310; D011 draws the all-ones 1-row sprite
    // stored at 0x310 at (V0, V1) = (0, 0), twice.
    let mut program = vec![
        0x00, 0xE0, // clear screen
        0xA3, 0x10, // I := 0x310 (the sprite row below)
        0xD0, 0x11, // draw 1 row at (V0, V1)
        0xD0, 0x11, // draw the same sprite again
    ];
    program.resize(0x110, 0);
    program.push(0xFF); // the sprite row, at address 0x310
    let (mut machine, keyboard, mut video, mut audio) = machine_with(program);
    machine.step(&keyboard, &mut video, &mut audio).unwrap(); // clear
    machine.step(&keyboard, &mut video, &mut audio).unwrap(); // set index
    machine.step(&keyboard, &mut video, &mut audio).unwrap(); // first draw
    assert_eq!(machine.register(15), 0, "first draw erases nothing");
    for col in 0..8 {
        assert!(machine.pixel(0, col), "pixel {col} of row 0 should be lit");
    }
    assert!(!machine.pixel(0, 8));
    let frame = video.get().expect("a draw leaves a frame snapshot");
    assert!(frame.data[0] && frame.data[7]);
    assert!(video.get().is_none(), "the snapshot is taken only once");
    machine.step(&keyboard, &mut video, &mut audio).unwrap(); // second draw
    assert_eq!(machine.register(15), 1, "re-drawing erases the pixels");
    for col in 0..8 {
        assert!(!machine.pixel(0, col), "pixel {col} should be dark again");
    }
}

#[test]
fn jump_lands_on_exact_address() {
    // 1300: jump to 0x300; the next fetch must happen at 0x300, not 0x302.
    let mut program = vec![0x13, 0x00];
    program.resize(0x100, 0);
    // At 0x300: 6A42 V10 := 0x42.
    program.push(0x6A);
    program.push(0x42);
    let (mut machine, keyboard, mut video, mut audio) = machine_with(program);
    machine.step(&keyboard, &mut video, &mut audio).unwrap();
    assert_eq!(machine.pc(), 0x300);
    machine.step(&keyboard, &mut video, &mut audio).unwrap();
    assert_eq!(machine.register(10), 0x42);
}

#[test]
fn call_and_return_via_program() {
    // 0x200: 2300 call 0x300; at 0x300: 00EE return.
    let mut program = vec![0x23, 0x00];
    program.resize(0x100, 0);
    program.push(0x00);
    program.push(0xEE);
    let (mut machine, keyboard, mut video, mut audio) = machine_with(program);
    machine.step(&keyboard, &mut video, &mut audio).unwrap();
    assert_eq!(machine.pc(), 0x300);
    machine.step(&keyboard, &mut video, &mut audio).unwrap();
    assert_eq!(machine.pc(), 0x202, "return resumes right after the call");
}

#[test]
fn delay_timer_decays_to_zero_and_stays() {
    // 6005 V0 := 5; F015 delay := V0; then 1204: jump-to-self loop.
    let (mut machine, keyboard, mut video, mut audio) =
        machine_with(vec![0x60, 0x05, 0xF0, 0x15, 0x12, 0x04]);
    machine.step(&keyboard, &mut video, &mut audio).unwrap(); // V0 := 5
    machine.step(&keyboard, &mut video, &mut audio).unwrap(); // delay := 5, then tick
    let initial = machine.delay();
    assert_eq!(initial, 4, "the setting cycle itself ticks the timer once");
    for n in 1..=6u8 {
        machine.step(&keyboard, &mut video, &mut audio).unwrap();
        let expected = if initial >= n { initial - n } else { 0 };
        assert_eq!(machine.delay(), expected);
    }
}

#[test]
fn wait_key_blocks_until_key_pressed_and_latches_lowest() {
    // F10A: wait for a key into V1.
    let (mut machine, mut keyboard, mut video, mut audio) =
        machine_with(vec![0xF1, 0x0A]);
    for _ in 0..3 {
        machine.step(&keyboard, &mut video, &mut audio).unwrap();
        assert_eq!(machine.pc(), 0x200, "no key pressed: the machine stays put");
    }
    keyboard.update_key(HexKey::X9, true);
    keyboard.update_key(HexKey::X7, true);
    machine.step(&keyboard, &mut video, &mut audio).unwrap();
    assert_eq!(machine.register(1), 7, "the lowest-indexed pressed key is latched");
    assert_eq!(machine.pc(), 0x202);
}

#[test]
fn unknown_opcode_is_fatal_and_reported() {
    let (mut machine, keyboard, mut video, mut audio) = machine_with(vec![0xFF, 0xFF]);
    let r = machine.step(&keyboard, &mut video, &mut audio);
    assert_eq!(r, Err(Chip8Error::UnknownOpcode(0xFFFF)));
    assert_eq!(machine.pc(), 0x200, "a fatal cycle changes nothing");
}

#[test]
fn sound_timer_drives_audio_events() {
    // 6005 V0 := 5; F018 sound := V0; then a jump-to-self loop.
    let (mut machine, keyboard, mut video, mut audio) =
        machine_with(vec![0x60, 0x05, 0xF0, 0x18, 0x12, 0x04]);
    machine.step(&keyboard, &mut video, &mut audio).unwrap();
    machine.step(&keyboard, &mut video, &mut audio).unwrap();
    assert_eq!(machine.sound(), 4);
    assert_eq!(audio.event, Some(AudioEvent::Play));
    for _ in 0..4 {
        machine.step(&keyboard, &mut video, &mut audio).unwrap();
    }
    assert_eq!(machine.sound(), 0);
    assert_eq!(audio.event, Some(AudioEvent::Stop));
}

#[test]
fn clear_screen_darkens_every_pixel() {
    // A310 I := 0x310; D011 draw; 00E0 clear. The sprite row at 0x310.
    let mut program = vec![0xA3, 0x10, 0xD0, 0x11, 0x00, 0xE0];
    program.resize(0x110, 0);
    program.push(0xFF);
    let (mut machine, keyboard, mut video, mut audio) = machine_with(program);
    machine.step(&keyboard, &mut video, &mut audio).unwrap();
    machine.step(&keyboard, &mut video, &mut audio).unwrap();
    assert!(machine.pixel(0, 0));
    machine.step(&keyboard, &mut video, &mut audio).unwrap();
    for col in 0..8 {
        assert!(!machine.pixel(0, col));
    }
}

#[test]
fn draw_sprite_clips_at_screen_edge() {
    // V0 := 60, V1 := 31: an 8-wide row at the right edge, bottom row.
    let mut program = vec![
        0x60, 0x3C, // V0 := 60
        0x61, 0x1F, // V1 := 31
        0xA3, 0x10, // I := 0x310
        0xD0, 0x12, // draw 2 rows at (60, 31): clipped to 4 columns, 1 row
    ];
    program.resize(0x110, 0);
    program.push(0xFF);
    program.push(0xFF);
    let (mut machine, keyboard, mut video, mut audio) = machine_with(program);
    for _ in 0..4 {
        machine.step(&keyboard, &mut video, &mut audio).unwrap();
    }
    for col in 60..64 {
        assert!(machine.pixel(31, col));
    }
    assert_eq!(machine.register(15), 0);
}

#[test]
fn sprite_read_past_memory_end_is_fatal() {
    // AFFF I := 0xFFF; D012 draw 2 rows: the second row is at 0x1000.
    let (mut machine, keyboard, mut video, mut audio) =
        machine_with(vec![0xAF, 0xFF, 0xD0, 0x12]);
    machine.step(&keyboard, &mut video, &mut audio).unwrap();
    let r = machine.step(&keyboard, &mut video, &mut audio);
    assert_eq!(r, Err(Chip8Error::OutOfBounds(4096)));
}

#[test]
fn program_too_large_is_reported() {
    let mut machine = Chip8::new();
    let r = machine.load_program(&Program::new(vec![0; 4096 - 0x200 + 1]));
    assert_eq!(r, Err(Chip8Error::ProgramTooLarge));
}

#[test]
fn fetch_at_memory_end_is_fatal() {
    // Jump to 0xFFF, where no full word can be fetched.
    let (mut machine, keyboard, mut video, mut audio) = machine_with(vec![0x1F, 0xFF]);
    machine.step(&keyboard, &mut video, &mut audio).unwrap();
    let r = machine.step(&keyboard, &mut video, &mut audio);
    assert_eq!(r, Err(Chip8Error::OutOfBounds(4096)));
}

#[test]
fn keyboard_updates_are_visible() {
    let mut keyboard = Keyboard::new();
    assert!(!keyboard.get_pressed(HexKey::X5));
    keyboard.update_key(HexKey::X5, true);
    assert!(keyboard.get_pressed(HexKey::X5));
    assert!(!keyboard.get_pressed(HexKey::X6));
    keyboard.update_key(HexKey::X5, false);
    assert!(!keyboard.get_pressed(HexKey::X5));
}

#[test]
fn hex_key_ids_round_trip() {
    for id in 0..16u8 {
        assert_eq!(HexKey::from_index(id).index(), id);
    }
}
