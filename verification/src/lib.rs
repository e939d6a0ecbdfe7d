//! The core of a CHIP-8 emulator: machine state, instructions and screen, with their
//! contracts proved by Verus.

pub mod display;
pub mod cpu;
pub mod sprite;
pub mod instruction;
pub mod chip8;
pub mod laws;
pub mod semantics;
