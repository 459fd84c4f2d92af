use chip8::beeper::{Beeper, Message};
use chip8::instruction::{decode, AluOp, Instruction};
use chip8::keypad::{KeyState, Keypad};
use chip8::memory::Memory;

#[test]
fn decode_names_each_family() {
    assert_eq!(decode(0x00E0), Some(Instruction::ClearScreen));
    assert_eq!(decode(0x00EE), Some(Instruction::Return));
    assert_eq!(decode(0x00C7), Some(Instruction::ScrollDown { n: 7 }));
    assert_eq!(decode(0x00D2), Some(Instruction::ScrollUp { n: 2 }));
    assert_eq!(decode(0x00FD), Some(Instruction::ExitProgram));
    assert_eq!(decode(0x1ABC), Some(Instruction::Jump { nnn: 0xABC }));
    assert_eq!(decode(0x3A12), Some(Instruction::SkipIfEqual { x: 0xA, nn: 0x12 }));
    assert_eq!(decode(0x5AB3), Some(Instruction::LoadRange { x: 0xA, y: 0xB }));
    assert_eq!(decode(0x5AB1), None);
    assert_eq!(decode(0x8ABE), Some(Instruction::Alu { op: AluOp::ShiftLeft, x: 0xA, y: 0xB }));
    assert_eq!(decode(0x8AB9), None);
    assert_eq!(decode(0xB123), Some(Instruction::JumpWithOffset { x: 1, nnn: 0x123 }));
    assert_eq!(decode(0xD12F), Some(Instruction::Draw { x: 1, y: 2, n: 0xF }));
    assert_eq!(decode(0xE39E), Some(Instruction::SkipIfKeyPressed { x: 3 }));
    assert_eq!(decode(0xE3A2), None);
    assert_eq!(decode(0xF000), Some(Instruction::LongIndex));
    assert_eq!(decode(0xF301), Some(Instruction::SelectPlanes { mask: 3 }));
    assert_eq!(decode(0xF465), Some(Instruction::LoadRegisters { x: 4 }));
    assert_eq!(decode(0xF4FF), None);
}

#[test]
fn keypad_states_and_release_order() {
    let mut keypad = Keypad::new();
    assert_eq!(keypad.get_released_key(), None);
    let mut down = [false; 16];
    let mut released = [false; 16];
    down[3] = true;
    released[3] = true;
    released[11] = true;
    released[6] = true;
    keypad.update_keys(down, released);
    assert_eq!(keypad.keys[3], KeyState::Pressed);
    assert!(keypad.is_key_pressed(3));
    assert!(keypad.is_key_released(6));
    assert!(!keypad.is_key_pressed(6));
    assert_eq!(keypad.keys[0], KeyState::Unpressed);
    assert_eq!(keypad.get_released_key(), Some(6));
    assert_eq!(KeyState::from_input(false, true), KeyState::Released);
    assert_eq!(KeyState::default(), KeyState::Unpressed);
}

#[test]
fn beeper_signals_each_transition_once() {
    let mut beeper = Beeper::new();
    beeper.pause();
    beeper.play();
    beeper.play();
    beeper.pause();
    beeper.pause();
    beeper.play();
    beeper.stop();
    assert!(!beeper.is_playing());
    assert_eq!(
        beeper.take_messages(),
        vec![Message::Play, Message::Pause, Message::Play, Message::Stop]
    );
    assert!(beeper.take_messages().is_empty());
}

#[test]
fn memory_resize_keeps_prefix() {
    let mut memory = Memory::new(4096);
    memory.write(100, 7);
    memory.write(4095, 9);
    memory.resize(65536);
    assert_eq!(memory.size(), 65536);
    assert_eq!(memory.read(100), 7);
    assert_eq!(memory.read(4095), 9);
    assert_eq!(memory.read(60000), 0);
    memory.write(60000, 3);
    memory.resize(4096);
    assert_eq!(memory.size(), 4096);
    assert_eq!(memory.read(4095), 9);
}

#[test]
fn memory_load_rom_places_program_and_fonts() {
    let mut memory = Memory::default();
    assert_eq!(memory.load_rom(&[0xAB, 0xCD]), Ok(()));
    assert_eq!(memory.read(0x200), 0xAB);
    assert_eq!(memory.read(0x201), 0xCD);
    assert_eq!(memory.read(0x202), 0);
    assert_eq!(memory.read(0), 0xF0);
    assert_eq!(memory.read(0x50 + 20), 0xFF);
}

#[test]
fn beeper_volume_is_sent_to_the_backend() {
    let mut beeper = Beeper::default();
    assert_eq!(beeper.get_volume(), 5);
    beeper.set_volume(80);
    assert_eq!(beeper.get_volume(), 80);
    beeper.play();
    assert_eq!(beeper.take_messages(), vec![Message::SetVolume(80), Message::Play]);
    assert_eq!(beeper.get_volume(), 80);
}
