use vstd::prelude::*;

use crate::emulator::Emulator;
use crate::error::{EmulatorError, Event};
use crate::machine::{paused, played};

verus! {

/// What the host application is doing.
#[derive(Clone, Copy, PartialEq, Eq, Structural, Debug)]
pub enum AppState {
    /// Frames run.
    Emulating,
    /// Frames are held; the program resumes where it stopped.
    Paused,
    /// The configuration is being edited.
    Settings,
    /// The program failed with this fault.
    ErrorReporting(EmulatorError),
}

impl Default for AppState {
    fn default() -> (r: Self)
        ensures
            r == AppState::Settings,
    {
        AppState::Settings
    }
}

/// The state after `event`; `None` when the application is to close.
pub open spec fn next_state(event: Event) -> Option<AppState> {
    match event {
        Event::StartEmulation => Some(AppState::Emulating),
        Event::PauseEmulation => Some(AppState::Paused),
        Event::OpenSettings => Some(AppState::Settings),
        Event::ReportError(e) => Some(AppState::ErrorReporting(e)),
        Event::Exit => None,
    }
}

/// Whether frames run in this state.
pub open spec fn runs(state: Option<AppState>) -> bool {
    state == Some(AppState::Emulating)
}

impl AppState {
    /// The state after `event`; `None` when the application is to close.
    pub fn on_event(&self, event: Event) -> (r: Option<AppState>)
        ensures
            r == next_state(event),
    {
        match event {
            Event::StartEmulation => Some(AppState::Emulating),
            Event::PauseEmulation => Some(AppState::Paused),
            Event::OpenSettings => Some(AppState::Settings),
            Event::ReportError(e) => Some(AppState::ErrorReporting(e)),
            Event::Exit => None,
        }
    }
}

/// Move from `state` on `event`, keeping the tone in step: it is silenced
/// when emulation stops running and sounds again, if the sound timer runs,
/// when emulation starts running. Returns the next state; `None` when the
/// application is to close.
pub fn handle_event(emulator: &mut Emulator, state: AppState, event: Event) -> (r: Option<AppState>)
    ensures
        r == next_state(event),
        final(emulator)@ == if runs(Some(state)) && !runs(r) {
            paused(old(emulator)@)
        } else if !runs(Some(state)) && runs(r) && old(emulator).sound_timer > 0 {
            played(old(emulator)@)
        } else {
            old(emulator)@
        },
        final(emulator).memory == old(emulator).memory,
        final(emulator).display == old(emulator).display,
        final(emulator).stack == old(emulator).stack,
        final(emulator).same_setup(old(emulator)),
        final(emulator).pc == old(emulator).pc,
        final(emulator).i_reg == old(emulator).i_reg,
{
    let next = state.on_event(event);
    let was_running = state == AppState::Emulating;
    let will_run = next == Some(AppState::Emulating);
    if was_running && !will_run {
        emulator.pause_audio();
    } else if !was_running && will_run {
        emulator.resume_audio();
    }
    next
}

} // verus!
