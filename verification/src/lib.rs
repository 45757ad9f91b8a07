//! A verified interpreter core for the CHIP-8 virtual machine.
//!
//! The machine state, the instruction decoder, the per-opcode semantics and
//! the frame scheduler are executable Rust whose behaviour is stated over a
//! mathematical model of the machine and proved by Verus.

pub mod bit;
pub mod chip8;
pub mod config;
pub mod cpu;
pub mod ctx;
pub mod display;
pub mod emulator;
pub mod environment;
pub mod error;
pub mod executor;
pub mod instruction;
pub mod laws;
pub mod math_2d;
pub mod memory;
mod random;
