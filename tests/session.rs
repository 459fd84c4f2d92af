use chip8::beeper::Message;
use chip8::config::Config;
use chip8::emulator::Emulator;
use chip8::error::{EmulatorError, Event};
use chip8::session::{handle_event, AppState};

fn machine(rom: &[u8]) -> Emulator {
    let mut emulator = Emulator::new(Config::default());
    emulator.load_rom(rom).unwrap();
    emulator
}

#[test]
fn frame_runs_configured_number_of_instructions() {
    let mut emulator = machine(&[0x70, 0x01, 0x12, 0x00]);
    emulator.config.instructions_per_frame = 5;
    emulator.delay_timer = 2;
    assert_eq!(emulator.run_frame(), None);
    assert_eq!(emulator.delay_timer, 1);
    assert_eq!(emulator.v_regs[0], 3);
    assert_eq!(emulator.pc, 0x202);
}

#[test]
fn frame_stops_at_first_event() {
    let mut emulator = machine(&[0x60, 0x01, 0x00, 0xEE, 0x60, 0x02]);
    assert_eq!(
        emulator.run_frame(),
        Some(Event::ReportError(EmulatorError::StackUnderflow { opcode: 0x00EE, address: 0x202 }))
    );
    assert_eq!(emulator.v_regs[0], 1);
    assert_eq!(emulator.pc, 0x204);
}

#[test]
fn frame_with_default_budget_runs_ten() {
    let mut emulator = machine(&[0x70, 0x01, 0x12, 0x00]);
    assert_eq!(emulator.run_frame(), None);
    assert_eq!(emulator.v_regs[0], 5);
}

#[test]
fn state_follows_events() {
    let state = AppState::default();
    assert_eq!(state, AppState::Settings);
    assert_eq!(state.on_event(Event::StartEmulation), Some(AppState::Emulating));
    assert_eq!(state.on_event(Event::PauseEmulation), Some(AppState::Paused));
    assert_eq!(state.on_event(Event::OpenSettings), Some(AppState::Settings));
    let error = EmulatorError::UnknownOpcode { opcode: 0xFFFF, address: 0x200 };
    assert_eq!(state.on_event(Event::ReportError(error)), Some(AppState::ErrorReporting(error)));
    assert_eq!(state.on_event(Event::Exit), None);
}

#[test]
fn pausing_silences_and_resuming_restores_the_tone() {
    let mut emulator = machine(&[0xF1, 0x18]);
    emulator.v_regs[1] = 30;
    emulator.execute_instruction().unwrap();
    assert!(emulator.beeper.is_playing());
    let state = handle_event(&mut emulator, AppState::Emulating, Event::PauseEmulation);
    assert_eq!(state, Some(AppState::Paused));
    assert!(!emulator.beeper.is_playing());
    let state = handle_event(&mut emulator, AppState::Paused, Event::StartEmulation);
    assert_eq!(state, Some(AppState::Emulating));
    assert!(emulator.beeper.is_playing());
    assert_eq!(
        emulator.beeper.take_messages(),
        vec![Message::Play, Message::Pause, Message::Play]
    );
}

#[test]
fn resuming_a_silent_program_stays_silent() {
    let mut emulator = machine(&[]);
    let state = handle_event(&mut emulator, AppState::Settings, Event::StartEmulation);
    assert_eq!(state, Some(AppState::Emulating));
    assert!(!emulator.beeper.is_playing());
    assert!(emulator.beeper.take_messages().is_empty());
}
