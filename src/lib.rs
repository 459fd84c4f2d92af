//! A CHIP-8 / SuperChip / XO-Chip virtual machine: memory, registers, display
//! planes, keypad, timers and an instruction engine whose behaviour is stated
//! in contracts and proved.

pub mod beeper;
pub mod config;
pub mod display;
pub mod emulator;
pub mod error;
pub mod instruction;
pub mod keypad;
pub mod laws;
pub mod machine;
pub mod memory;
pub mod session;
mod sprite;
