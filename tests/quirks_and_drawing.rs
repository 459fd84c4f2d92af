use chip8::config::{Config, Quirks};
use chip8::display::{Display, PlaneOp, Plane, Resolution};
use chip8::emulator::Emulator;

fn machine_with(rom: &[u8], quirks: Quirks) -> Emulator {
    let mut config = Config::default();
    config.quirks = quirks;
    let mut emulator = Emulator::new(config);
    emulator.load_rom(rom).unwrap();
    emulator
}

fn run(emulator: &mut Emulator, count: usize) {
    for _ in 0..count {
        emulator.execute_instruction().unwrap();
    }
}

fn lit(plane: &Plane) -> Vec<(usize, usize)> {
    let mut out = Vec::new();
    for (y, row) in plane.pixels.iter().enumerate() {
        for (x, pixel) in row.iter().enumerate() {
            if *pixel {
                out.push((x, y));
            }
        }
    }
    out
}

#[test]
fn vf_reset_quirk_changes_logic_ops() {
    let rom = [0x81, 0x21];
    let mut off = machine_with(&rom, Quirks::default());
    let mut on = machine_with(&rom, Quirks { vf_reset: true, ..Quirks::default() });
    for emulator in [&mut off, &mut on] {
        emulator.v_regs[1] = 0x0C;
        emulator.v_regs[2] = 0x03;
        emulator.v_regs[0xF] = 9;
        run(emulator, 1);
        assert_eq!(emulator.v_regs[1], 0x0F);
    }
    assert_eq!(off.v_regs[0xF], 9);
    assert_eq!(on.v_regs[0xF], 0);
}

#[test]
fn increment_i_quirk_changes_index() {
    let rom = [0xA3, 0x00, 0xF3, 0x65];
    let mut off = machine_with(&rom, Quirks::default());
    let mut on = machine_with(&rom, Quirks { increment_i_reg: true, ..Quirks::default() });
    run(&mut off, 2);
    run(&mut on, 2);
    assert_eq!(off.i_reg, 0x300);
    assert_eq!(on.i_reg, 0x304);
}

#[test]
fn vx_offset_jump_quirk_changes_target() {
    let rom = [0xB2, 0x40];
    let mut off = machine_with(&rom, Quirks::default());
    let mut on = machine_with(&rom, Quirks { vx_offset_jump: true, ..Quirks::default() });
    for emulator in [&mut off, &mut on] {
        emulator.v_regs[0] = 1;
        emulator.v_regs[2] = 5;
        run(emulator, 1);
    }
    assert_eq!(off.pc, 0x241);
    assert_eq!(on.pc, 0x245);
}

#[test]
fn shift_vx_directly_quirk_changes_source() {
    let rom = [0x81, 0x26];
    let mut off = machine_with(&rom, Quirks::default());
    let mut on = machine_with(&rom, Quirks { shift_vx_directly: true, ..Quirks::default() });
    for emulator in [&mut off, &mut on] {
        emulator.v_regs[1] = 0b0000_1000;
        emulator.v_regs[2] = 0b0000_0011;
        run(emulator, 1);
    }
    assert_eq!((off.v_regs[1], off.v_regs[0xF]), (0b0000_0001, 1));
    assert_eq!((on.v_regs[1], on.v_regs[0xF]), (0b0000_0100, 0));
}

#[test]
fn wrap_sprites_quirk_changes_clipping() {
    // Draw the glyph "0" (4 pixels wide) at x = 62: columns 62, 63 fit, 64 and 65 do not.
    let rom = [0x60, 0x3E, 0x61, 0x00, 0xA0, 0x00, 0xD0, 0x15];
    let mut off = machine_with(&rom, Quirks::default());
    let mut on = machine_with(&rom, Quirks { wrap_sprites: true, ..Quirks::default() });
    run(&mut off, 4);
    run(&mut on, 4);
    assert!(!off.display.planes[0].pixels[0][0]);
    assert!(on.display.planes[0].pixels[0][0]);
    assert!(on.display.planes[0].pixels[0][1]);
    assert_eq!(lit(&off.display.planes[0]).len(), 7);
    assert_eq!(lit(&on.display.planes[0]).len(), 14);
}

#[test]
fn drawing_twice_restores_and_collides() {
    let rom = [0x60, 0x05, 0x61, 0x07, 0xA0, 0x00, 0xD0, 0x15, 0xD0, 0x15];
    let mut emulator = machine_with(&rom, Quirks::default());
    run(&mut emulator, 4);
    assert_eq!(emulator.v_regs[0xF], 0);
    let first = lit(&emulator.display.planes[0]);
    assert_eq!(first.len(), 14);
    assert!(first.contains(&(5, 7)));
    assert!(first.contains(&(8, 11)));
    assert!(!first.contains(&(6, 8)));
    run(&mut emulator, 1);
    assert_eq!(emulator.v_regs[0xF], 1);
    assert!(lit(&emulator.display.planes[0]).is_empty());
}

#[test]
fn start_point_wraps_even_without_quirk() {
    let rom = [0x60, 0x45, 0x61, 0x21, 0xA0, 0x00, 0xD0, 0x11];
    let mut emulator = machine_with(&rom, Quirks::default());
    run(&mut emulator, 4);
    assert_eq!(lit(&emulator.display.planes[0]), vec![(5, 1), (6, 1), (7, 1), (8, 1)]);
}

#[test]
fn large_sprite_draws_sixteen_by_sixteen() {
    let mut emulator = machine_with(&[0x00, 0xFF, 0xA3, 0x00, 0xD0, 0x00], Quirks::default());
    for a in 0..32 {
        emulator.memory.write(0x300 + a, 0xFF);
    }
    run(&mut emulator, 3);
    assert_eq!(lit(&emulator.display.planes[0]).len(), 256);
    assert_eq!(emulator.v_regs[0xF], 0);
}

#[test]
fn large_sprite_data_past_end_is_rejected() {
    let mut emulator = machine_with(&[0xD0, 0x00], Quirks::default());
    emulator.i_reg = 4096 - 31;
    let result = emulator.execute_instruction();
    assert_eq!(
        result,
        Err(chip8::error::Event::ReportError(chip8::error::EmulatorError::MemoryOutOfBounds {
            opcode: 0xD000,
            address: 0x200,
            index: 4096,
        }))
    );
    assert!(lit(&emulator.display.planes[0]).is_empty());
}

#[test]
fn both_planes_take_separate_sprite_data() {
    // Select both planes, draw a one-row sprite: plane 0 reads 0x300, plane 1 reads 0x301.
    let rom = [0xF3, 0x01, 0xA3, 0x00, 0xD0, 0x01];
    let mut emulator = machine_with(&rom, Quirks::default());
    emulator.memory.write(0x300, 0x80);
    emulator.memory.write(0x301, 0x01);
    run(&mut emulator, 3);
    assert_eq!(lit(&emulator.display.planes[0]), vec![(0, 0)]);
    assert_eq!(lit(&emulator.display.planes[1]), vec![(7, 0)]);
}

#[test]
fn second_plane_alone_reads_first_block() {
    let rom = [0xF2, 0x01, 0xA3, 0x00, 0xD0, 0x01, 0x00, 0xE0];
    let mut emulator = machine_with(&rom, Quirks::default());
    emulator.memory.write(0x300, 0x80);
    emulator.display.planes[0].pixels[5][5] = true;
    run(&mut emulator, 3);
    assert_eq!(lit(&emulator.display.planes[1]), vec![(0, 0)]);
    assert_eq!(lit(&emulator.display.planes[0]), vec![(5, 5)]);
    run(&mut emulator, 1);
    assert!(lit(&emulator.display.planes[1]).is_empty());
    assert_eq!(lit(&emulator.display.planes[0]), vec![(5, 5)]);
}

#[test]
fn scroll_opcodes_move_pixels() {
    let rom = [0x00, 0xC3, 0x00, 0xFB, 0x00, 0xD1, 0x00, 0xFC];
    let mut emulator = machine_with(&rom, Quirks::default());
    emulator.display.planes[0].pixels[0][0] = true;
    run(&mut emulator, 1);
    assert_eq!(lit(&emulator.display.planes[0]), vec![(0, 3)]);
    run(&mut emulator, 1);
    assert_eq!(lit(&emulator.display.planes[0]), vec![(4, 3)]);
    run(&mut emulator, 1);
    assert_eq!(lit(&emulator.display.planes[0]), vec![(4, 2)]);
    run(&mut emulator, 1);
    assert_eq!(lit(&emulator.display.planes[0]), vec![(0, 2)]);
}

#[test]
fn plane_scrolls_reset_vacated_pixels() {
    let mut plane = Plane::new(Resolution::Low);
    plane.pixels[31][63] = true;
    plane.pixels[0][0] = true;
    plane.scroll_right();
    assert_eq!(lit(&plane), vec![(4, 0)]);
    plane.scroll_left();
    plane.scroll_left();
    assert!(lit(&plane).is_empty());
    plane.pixels[31][10] = true;
    plane.scroll_down(1);
    assert!(lit(&plane).is_empty());
    plane.pixels[0][10] = true;
    plane.scroll_up(1);
    assert!(lit(&plane).is_empty());
    plane.pixels[4][4] = true;
    plane.clear();
    assert!(lit(&plane).is_empty());
    assert_eq!(plane.pixels.len(), 32);
}

#[test]
fn set_resolution_clears_only_on_change() {
    let mut display = Display::default();
    display.planes[0].pixels[1][1] = true;
    display.set_resolution(Resolution::Low);
    assert!(display.planes[0].pixels[1][1]);
    display.set_resolution(Resolution::High);
    assert_eq!(display.resolution, Resolution::High);
    assert_eq!(display.planes[0].resolution, Resolution::High);
    assert_eq!(display.planes[0].pixels.len(), 64);
    assert!(display.planes[0].pixels.iter().all(|row| row.len() == 128 && row.iter().all(|p| !p)));
    assert_eq!(Resolution::High.width(), 128);
    assert_eq!(Resolution::High.height(), 64);
    assert_eq!(Resolution::Low.width(), 64);
    assert_eq!(Resolution::Low.height(), 32);
}

#[test]
fn for_active_plane_applies_once_per_selected_plane() {
    let mut display = Display::default();
    display.planes[0].pixels[0][0] = true;
    display.planes[1].pixels[0][0] = true;
    display.for_active_plane(PlaneOp::ScrollRight);
    assert!(display.planes[0].pixels[0][4]);
    assert!(!display.planes[0].pixels[0][8]);
    assert!(display.planes[1].pixels[0][0]);
    display.active_planes = 0b11;
    display.for_active_plane(PlaneOp::Clear);
    assert!(lit(&display.planes[0]).is_empty());
    assert!(lit(&display.planes[1]).is_empty());
}

#[test]
fn zip_planes_pairs_pixels() {
    let mut display = Display::default();
    display.planes[0].pixels[2][3] = true;
    display.planes[1].pixels[2][4] = true;
    let zipped = display.zip_planes();
    assert_eq!(zipped.len(), 32);
    assert_eq!(zipped[0].len(), 64);
    assert_eq!(zipped[2][3], (true, false));
    assert_eq!(zipped[2][4], (false, true));
    assert_eq!(zipped[0][0], (false, false));
}
