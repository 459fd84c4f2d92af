use vstd::prelude::*;

verus! {

/// A fatal fault of a running program. `address` is where the failing
/// instruction was fetched from.
#[derive(Clone, Copy, PartialEq, Eq, Structural, Debug)]
pub enum EmulatorError {
    /// No instruction has this opcode.
    UnknownOpcode { opcode: u16, address: usize },
    /// `00EE` with no subroutine to return from.
    StackUnderflow { opcode: u16, address: usize },
    /// The instruction would touch memory up to `index`, past the end.
    MemoryOutOfBounds { opcode: u16, address: usize, index: usize },
}

/// What stops a frame early, or what the host asks of the emulation.
#[derive(Clone, Copy, PartialEq, Eq, Structural, Debug)]
pub enum Event {
    StartEmulation,
    PauseEmulation,
    OpenSettings,
    /// The program failed.
    ReportError(EmulatorError),
    /// The program ended.
    Exit,
}

} // verus!
