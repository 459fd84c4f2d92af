use chip8::config::{Config, Quirks};
use chip8::display::Resolution;
use chip8::emulator::Emulator;
use chip8::error::{EmulatorError, Event};
use chip8::keypad::KeyState;
use chip8::beeper::Message;

fn machine_with(rom: &[u8], quirks: Quirks) -> Emulator {
    let mut config = Config::default();
    config.quirks = quirks;
    let mut emulator = Emulator::new(config);
    emulator.load_rom(rom).unwrap();
    emulator
}

fn machine(rom: &[u8]) -> Emulator {
    machine_with(rom, Quirks::default())
}

fn run(emulator: &mut Emulator, count: usize) {
    for _ in 0..count {
        emulator.execute_instruction().unwrap();
    }
}

fn lit_pixels(emulator: &Emulator, plane: usize) -> usize {
    emulator.display.planes[plane]
        .pixels
        .iter()
        .map(|row| row.iter().filter(|p| **p).count())
        .sum()
}

#[test]
fn end_to_end_add_clear_and_underflow() {
    let mut emulator = machine(&[0x60, 0x05, 0x70, 0x03, 0x00, 0xE0, 0x00, 0xEE]);
    run(&mut emulator, 2);
    assert_eq!(emulator.v_regs[0], 8);

    emulator.display.planes[0].pixels[3][4] = true;
    run(&mut emulator, 1);
    assert_eq!(lit_pixels(&emulator, 0), 0);

    let result = emulator.execute_instruction();
    assert_eq!(
        result,
        Err(Event::ReportError(EmulatorError::StackUnderflow { opcode: 0x00EE, address: 0x206 }))
    );
}

#[test]
fn end_to_end_store_without_increment() {
    let mut emulator = machine(&[0xA2, 0x02, 0xF2, 0x55]);
    emulator.v_regs[0] = 0x11;
    emulator.v_regs[1] = 0x22;
    emulator.v_regs[2] = 0x33;
    run(&mut emulator, 2);
    assert_eq!(emulator.i_reg, 0x202);
    assert_eq!(emulator.memory.read(0x202), 0x11);
    assert_eq!(emulator.memory.read(0x203), 0x22);
    assert_eq!(emulator.memory.read(0x204), 0x33);
}

#[test]
fn end_to_end_store_with_increment() {
    let quirks = Quirks { increment_i_reg: true, ..Quirks::default() };
    let mut emulator = machine_with(&[0xA2, 0x02, 0xF2, 0x55], quirks);
    run(&mut emulator, 2);
    assert_eq!(emulator.i_reg, 0x205);
}

#[test]
fn fetch_reads_big_endian_and_advances_by_two() {
    let mut emulator = machine(&[0x6A, 0xBC]);
    run(&mut emulator, 1);
    assert_eq!(emulator.v_regs[0xA], 0xBC);
    assert_eq!(emulator.pc, 0x202);
}

#[test]
fn long_index_advances_by_four() {
    let mut emulator = machine(&[0xF0, 0x00, 0x12, 0x34]);
    run(&mut emulator, 1);
    assert_eq!(emulator.i_reg, 0x1234);
    assert_eq!(emulator.pc, 0x204);
}

#[test]
fn long_index_at_end_of_memory_is_out_of_bounds() {
    let mut emulator = machine(&[]);
    emulator.memory.write(4094, 0xF0);
    emulator.memory.write(4095, 0x00);
    emulator.pc = 4094;
    let result = emulator.execute_instruction();
    assert_eq!(
        result,
        Err(Event::ReportError(EmulatorError::MemoryOutOfBounds {
            opcode: 0xF000,
            address: 4094,
            index: 4097,
        }))
    );
}

#[test]
fn add_immediate_wraps() {
    let mut emulator = machine(&[0x60, 0xFA, 0x70, 0x0A]);
    emulator.v_regs[0xF] = 7;
    run(&mut emulator, 2);
    assert_eq!(emulator.v_regs[0], 4);
    assert_eq!(emulator.v_regs[0xF], 7);
}

#[test]
fn add_registers_sets_carry() {
    let mut emulator = machine(&[0x81, 0x24, 0x83, 0x44]);
    emulator.v_regs[1] = 200;
    emulator.v_regs[2] = 100;
    emulator.v_regs[3] = 10;
    emulator.v_regs[4] = 20;
    run(&mut emulator, 1);
    assert_eq!(emulator.v_regs[1], 44);
    assert_eq!(emulator.v_regs[0xF], 1);
    run(&mut emulator, 1);
    assert_eq!(emulator.v_regs[3], 30);
    assert_eq!(emulator.v_regs[0xF], 0);
}

#[test]
fn subtract_sets_no_borrow_flag() {
    let mut emulator = machine(&[0x81, 0x25, 0x83, 0x45, 0x85, 0x65]);
    emulator.v_regs[1] = 10;
    emulator.v_regs[2] = 3;
    emulator.v_regs[3] = 3;
    emulator.v_regs[4] = 10;
    emulator.v_regs[5] = 9;
    emulator.v_regs[6] = 9;
    run(&mut emulator, 1);
    assert_eq!((emulator.v_regs[1], emulator.v_regs[0xF]), (7, 1));
    run(&mut emulator, 1);
    assert_eq!((emulator.v_regs[3], emulator.v_regs[0xF]), (249, 0));
    run(&mut emulator, 1);
    assert_eq!((emulator.v_regs[5], emulator.v_regs[0xF]), (0, 1));
}

#[test]
fn reverse_subtract_and_shifts() {
    let mut emulator = machine(&[0x81, 0x27, 0x83, 0x46, 0x85, 0x6E]);
    emulator.v_regs[1] = 10;
    emulator.v_regs[2] = 3;
    emulator.v_regs[4] = 0b0000_0101;
    emulator.v_regs[6] = 0b1000_0001;
    run(&mut emulator, 1);
    assert_eq!((emulator.v_regs[1], emulator.v_regs[0xF]), (249, 0));
    run(&mut emulator, 1);
    assert_eq!((emulator.v_regs[3], emulator.v_regs[0xF]), (2, 1));
    run(&mut emulator, 1);
    assert_eq!((emulator.v_regs[5], emulator.v_regs[0xF]), (2, 1));
}

#[test]
fn skip_passes_over_long_index() {
    let mut emulator = machine(&[0x30, 0x00, 0xF0, 0x00, 0x12, 0x34, 0x61, 0x01]);
    run(&mut emulator, 1);
    assert_eq!(emulator.pc, 0x206);
}

#[test]
fn skip_passes_over_ordinary_instruction() {
    let mut emulator = machine(&[0x40, 0x01, 0x61, 0x01, 0x62, 0x02]);
    run(&mut emulator, 1);
    assert_eq!(emulator.pc, 0x204);
    let mut emulator = machine(&[0x50, 0x10, 0xF0, 0x00, 0x00, 0x00]);
    run(&mut emulator, 1);
    assert_eq!(emulator.pc, 0x206);
    let mut emulator = machine(&[0x90, 0x10, 0x61, 0x01]);
    run(&mut emulator, 1);
    assert_eq!(emulator.pc, 0x202);
}

#[test]
fn call_then_return_resumes_after_call() {
    let mut emulator = machine(&[0x23, 0x00]);
    emulator.memory.write(0x300, 0x00);
    emulator.memory.write(0x301, 0xEE);
    run(&mut emulator, 1);
    assert_eq!(emulator.pc, 0x300);
    assert_eq!(emulator.stack, vec![0x202]);
    run(&mut emulator, 1);
    assert_eq!(emulator.pc, 0x202);
    assert!(emulator.stack.is_empty());
}

#[test]
fn store_registers_past_end_is_rejected_without_writing() {
    let mut emulator = machine(&[0xFF, 0x55]);
    emulator.i_reg = 4090;
    for r in 0..16 {
        emulator.v_regs[r] = 0xAA;
    }
    let before: Vec<u8> = (4080..4096).map(|a| emulator.memory.read(a)).collect();
    let result = emulator.execute_instruction();
    assert_eq!(
        result,
        Err(Event::ReportError(EmulatorError::MemoryOutOfBounds {
            opcode: 0xFF55,
            address: 0x200,
            index: 4105,
        }))
    );
    let after: Vec<u8> = (4080..4096).map(|a| emulator.memory.read(a)).collect();
    assert_eq!(before, after);
}

#[test]
fn store_registers_up_to_last_byte_succeeds() {
    let mut emulator = machine(&[0xF1, 0x55]);
    emulator.i_reg = 4094;
    emulator.v_regs[0] = 1;
    emulator.v_regs[1] = 2;
    run(&mut emulator, 1);
    assert_eq!(emulator.memory.read(4094), 1);
    assert_eq!(emulator.memory.read(4095), 2);
}

#[test]
fn load_registers_reads_memory() {
    let mut emulator = machine(&[0xA3, 0x00, 0xF2, 0x65]);
    emulator.memory.write(0x300, 9);
    emulator.memory.write(0x301, 8);
    emulator.memory.write(0x302, 7);
    emulator.v_regs[3] = 55;
    run(&mut emulator, 2);
    assert_eq!(&emulator.v_regs[0..4], &[9, 8, 7, 55]);
}

#[test]
fn bcd_stores_three_digits() {
    let mut emulator = machine(&[0xA3, 0x00, 0xF4, 0x33]);
    emulator.v_regs[4] = 237;
    run(&mut emulator, 2);
    assert_eq!(emulator.memory.read(0x300), 2);
    assert_eq!(emulator.memory.read(0x301), 3);
    assert_eq!(emulator.memory.read(0x302), 7);
}

#[test]
fn bcd_past_end_is_rejected() {
    let mut emulator = machine(&[0xF4, 0x33]);
    emulator.i_reg = 4094;
    let result = emulator.execute_instruction();
    assert_eq!(
        result,
        Err(Event::ReportError(EmulatorError::MemoryOutOfBounds {
            opcode: 0xF433,
            address: 0x200,
            index: 4096,
        }))
    );
}

#[test]
fn save_and_load_register_ranges_in_both_directions() {
    let mut emulator = machine(&[0xA3, 0x00, 0x53, 0x12, 0xA3, 0x10, 0x51, 0x32]);
    emulator.v_regs[1] = 0x11;
    emulator.v_regs[2] = 0x22;
    emulator.v_regs[3] = 0x33;
    run(&mut emulator, 4);
    assert_eq!(
        [emulator.memory.read(0x300), emulator.memory.read(0x301), emulator.memory.read(0x302)],
        [0x33, 0x22, 0x11]
    );
    assert_eq!(
        [emulator.memory.read(0x310), emulator.memory.read(0x311), emulator.memory.read(0x312)],
        [0x11, 0x22, 0x33]
    );

    let mut emulator = machine(&[0xA3, 0x00, 0x57, 0x53]);
    emulator.memory.write(0x300, 1);
    emulator.memory.write(0x301, 2);
    emulator.memory.write(0x302, 3);
    run(&mut emulator, 2);
    assert_eq!(&emulator.v_regs[5..8], &[3, 2, 1]);
}

#[test]
fn unknown_opcode_is_reported() {
    let mut emulator = machine(&[0x00, 0xE1]);
    assert_eq!(
        emulator.execute_instruction(),
        Err(Event::ReportError(EmulatorError::UnknownOpcode { opcode: 0x00E1, address: 0x200 }))
    );
    let mut emulator = machine(&[0x61, 0x01, 0x80, 0x18]);
    run(&mut emulator, 1);
    assert_eq!(
        emulator.execute_instruction(),
        Err(Event::ReportError(EmulatorError::UnknownOpcode { opcode: 0x8018, address: 0x202 }))
    );
}

#[test]
fn exit_instruction_ends_program() {
    let mut emulator = machine(&[0x00, 0xFD]);
    run(&mut emulator, 1);
    assert_eq!(emulator.pc, 4096);
    assert_eq!(emulator.execute_instruction(), Err(Event::Exit));
    assert_eq!(emulator.beeper.take_messages(), vec![Message::Stop]);
}

#[test]
fn audio_pattern_opcodes_are_accepted() {
    let mut emulator = machine(&[0xF0, 0x02, 0xF3, 0x3A]);
    run(&mut emulator, 2);
    assert_eq!(emulator.pc, 0x204);
}

#[test]
fn jumps_and_index() {
    let mut emulator = machine(&[0x1A, 0xBC]);
    run(&mut emulator, 1);
    assert_eq!(emulator.pc, 0xABC);

    let mut emulator = machine(&[0xB3, 0x00]);
    emulator.v_regs[0] = 4;
    emulator.v_regs[3] = 8;
    run(&mut emulator, 1);
    assert_eq!(emulator.pc, 0x304);

    let mut emulator = machine(&[0xA1, 0x23, 0xF5, 0x1E]);
    emulator.v_regs[5] = 0x10;
    run(&mut emulator, 2);
    assert_eq!(emulator.i_reg, 0x133);
}

#[test]
fn add_to_index_stays_within_sixteen_bits() {
    let mut emulator = machine(&[0xF5, 0x1E]);
    emulator.i_reg = 0xFFF0;
    emulator.v_regs[5] = 0x20;
    run(&mut emulator, 1);
    assert_eq!(emulator.i_reg, 0x0010);
}

#[test]
fn glyph_addresses() {
    let mut emulator = machine(&[0xF1, 0x29, 0xF2, 0x30]);
    emulator.v_regs[1] = 0x1A;
    emulator.v_regs[2] = 0x03;
    run(&mut emulator, 1);
    assert_eq!(emulator.i_reg, 50);
    run(&mut emulator, 1);
    assert_eq!(emulator.i_reg, 0x50 + 30);
}

#[test]
fn random_is_masked() {
    let mut emulator = machine(&[0xC4, 0x00, 0xC5, 0x0F]);
    emulator.v_regs[4] = 99;
    run(&mut emulator, 2);
    assert_eq!(emulator.v_regs[4], 0);
    assert!(emulator.v_regs[5] <= 0x0F);
}

#[test]
fn random_byte_given_is_masked() {
    let mut emulator = machine(&[0xC4, 0x3C]);
    emulator.execute_with_random(0xFF).unwrap();
    assert_eq!(emulator.v_regs[4], 0x3C);
}

#[test]
fn timers_count_down_and_drive_the_tone() {
    let mut emulator = machine(&[0xF1, 0x15, 0xF2, 0x18, 0xF3, 0x07]);
    emulator.v_regs[1] = 3;
    emulator.v_regs[2] = 1;
    run(&mut emulator, 2);
    assert_eq!(emulator.delay_timer, 3);
    assert_eq!(emulator.sound_timer, 1);
    assert!(emulator.beeper.is_playing());
    emulator.tick_timers();
    assert_eq!(emulator.delay_timer, 2);
    assert_eq!(emulator.sound_timer, 0);
    assert!(!emulator.beeper.is_playing());
    run(&mut emulator, 1);
    assert_eq!(emulator.v_regs[3], 2);
    assert_eq!(emulator.beeper.take_messages(), vec![Message::Play, Message::Pause]);
}

#[test]
fn setting_sound_timer_twice_plays_once() {
    let mut emulator = machine(&[0xF1, 0x18, 0xF1, 0x18, 0xF2, 0x18]);
    emulator.v_regs[1] = 5;
    run(&mut emulator, 3);
    assert_eq!(emulator.sound_timer, 0);
    assert_eq!(emulator.beeper.take_messages(), vec![Message::Play, Message::Pause]);
}

#[test]
fn wait_for_key_repeats_until_release() {
    let mut emulator = machine(&[0xF7, 0x0A]);
    run(&mut emulator, 1);
    assert_eq!(emulator.pc, 0x200);
    emulator.keypad.keys[9] = KeyState::Pressed;
    run(&mut emulator, 1);
    assert_eq!(emulator.pc, 0x200);
    emulator.keypad.keys[9] = KeyState::Released;
    emulator.keypad.keys[12] = KeyState::Released;
    run(&mut emulator, 1);
    assert_eq!(emulator.pc, 0x202);
    assert_eq!(emulator.v_regs[7], 9);
}

#[test]
fn key_skips() {
    let mut emulator = machine(&[0xE1, 0x9E, 0x00, 0x00, 0xE1, 0xA1]);
    emulator.v_regs[1] = 0x14;
    emulator.keypad.keys[4] = KeyState::Pressed;
    run(&mut emulator, 1);
    assert_eq!(emulator.pc, 0x204);
    run(&mut emulator, 1);
    assert_eq!(emulator.pc, 0x206);
}

#[test]
fn flag_registers_exclusive_range() {
    let mut emulator = machine(&[0xF3, 0x75, 0x60, 0x00, 0x61, 0x00, 0x62, 0x00, 0xF3, 0x85]);
    emulator.v_regs[0] = 1;
    emulator.v_regs[1] = 2;
    emulator.v_regs[2] = 3;
    emulator.v_regs[3] = 4;
    run(&mut emulator, 1);
    assert_eq!(&emulator.f_regs[0..4], &[1, 2, 3, 0]);
    run(&mut emulator, 4);
    assert_eq!(&emulator.v_regs[0..4], &[1, 2, 3, 4]);
}

#[test]
fn running_off_the_end_exits() {
    let mut emulator = machine(&[]);
    emulator.pc = 4096;
    assert_eq!(emulator.execute_instruction(), Err(Event::Exit));
    let mut emulator = machine(&[]);
    emulator.pc = 4095;
    assert_eq!(emulator.execute_instruction(), Err(Event::Exit));
}

#[test]
fn rom_too_large_is_refused() {
    let mut emulator = Emulator::new(Config::default());
    let rom = vec![0u8; 4096 - 0x200 + 1];
    assert_eq!(
        emulator.load_rom(&rom),
        Err(chip8::memory::LoadError::RomTooLarge { size: 3585, max: 3584 })
    );
    assert!(!emulator.rom_loaded);
    let rom = vec![0x12u8; 4096 - 0x200];
    assert_eq!(emulator.load_rom(&rom), Ok(()));
    assert!(emulator.rom_loaded);
    assert_eq!(emulator.memory.read(4095), 0x12);
}

#[test]
fn fonts_are_installed() {
    let emulator = Emulator::new(Config::default());
    assert_eq!(emulator.memory.read(0), 0xF0);
    assert_eq!(emulator.memory.read(5), 0x20);
    assert_eq!(emulator.memory.read(79), 0x80);
    assert_eq!(emulator.memory.read(0x50), 0xFF);
    assert_eq!(emulator.memory.read(0x50 + 10), 0x18);
    assert_eq!(emulator.memory.read(0x50 + 159), 0xC0);
    assert_eq!(emulator.memory.read(0x50 + 160), 0);
}

#[test]
fn larger_memory_keeps_program() {
    let mut emulator = machine(&[0x60, 0x01]);
    emulator.set_memory_size(65536);
    assert_eq!(emulator.memory.size(), 65536);
    assert_eq!(emulator.memory.read(0x200), 0x60);
    assert_eq!(emulator.memory.read(65535), 0);
    let rom = vec![1u8; 65536 - 0x200];
    assert_eq!(emulator.load_rom(&rom), Ok(()));
}

#[test]
fn reset_keeps_configuration_and_keys() {
    let quirks = Quirks { wrap_sprites: true, ..Quirks::default() };
    let mut emulator = machine_with(&[0x60, 0x07], quirks);
    emulator.keypad.keys[2] = KeyState::Pressed;
    run(&mut emulator, 1);
    emulator.reset();
    assert_eq!(emulator.v_regs[0], 0);
    assert_eq!(emulator.pc, 0x200);
    assert!(!emulator.rom_loaded);
    assert!(emulator.config.quirks.wrap_sprites);
    assert_eq!(emulator.keypad.keys[2], KeyState::Pressed);
    assert_eq!(emulator.beeper.take_messages(), vec![Message::Stop]);
}

#[test]
fn select_rom_records_path() {
    let mut emulator = Emulator::new(Config::default());
    assert_eq!(emulator.get_rom(), &None);
    emulator.select_rom("games/pong.ch8".to_string());
    assert_eq!(emulator.get_rom(), &Some("games/pong.ch8".to_string()));
}

#[test]
fn resolution_opcodes() {
    let mut emulator = machine(&[0x00, 0xFF, 0x00, 0xFF, 0x00, 0xFE]);
    run(&mut emulator, 1);
    assert_eq!(emulator.display.resolution, Resolution::High);
    assert_eq!(emulator.display.planes[0].pixels.len(), 64);
    assert_eq!(emulator.display.planes[0].pixels[0].len(), 128);
    emulator.display.planes[1].pixels[10][100] = true;
    run(&mut emulator, 1);
    assert!(emulator.display.planes[1].pixels[10][100]);
    run(&mut emulator, 1);
    assert_eq!(emulator.display.resolution, Resolution::Low);
    assert_eq!(emulator.display.planes[1].pixels.len(), 32);
    assert_eq!(lit_pixels(&emulator, 1), 0);
}
