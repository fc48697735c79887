//! A CHIP-8 virtual machine: memory, registers, call stack, timers, a
//! monochrome frame buffer and a sixteen-key pad, driven one
//! fetch-decode-execute cycle at a time.

pub mod display;
pub mod instruction;
pub mod machine;

pub use instruction::{decode, Instruction};
pub use machine::{Chip8, Chip8Error};
