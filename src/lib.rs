//! A CHIP-8 interpreter core: machine state, instruction decoding and
//! execution, sprite drawing and the wait-for-key state machine.

pub mod font;
pub mod cpu;
pub mod display;
pub mod instruction;
pub mod laws;
pub mod model;

pub use cpu::Chip8;
pub use instruction::{decode, Instruction};
pub use model::{Chip8Error, RunState};
