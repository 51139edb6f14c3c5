//! A CHIP-8 virtual machine core.
//!
//! The core fetches, decodes and executes one instruction at a time and keeps
//! the architectural state (memory, registers, call stack, timers and the
//! 64x32 monochrome display) exactly as the instruction set defines it. The
//! host supplies the time, the key states and the display surface:
//!
//! - `cpu::Cpu` is the machine. The host calls `Cpu::tick` and
//!   `Cpu::update_timers` as often as it can, each with the time in
//!   nanoseconds on a clock of its choice, and `Cpu::waiting_key_pressed`
//!   when a key goes down.
//! - `backend::Backend` is what the machine asks of the host.
//! - `machine::Machine` is the machine as a mathematical value; the contracts
//!   of `Cpu` are stated over it, and `laws` holds what follows from them.
//!
//! A malformed program never makes the machine panic: it ends in a
//! `error::Fault` that names the instruction, and the machine stays in the
//! state in which the instruction was refused.

pub mod backend;
pub mod cpu;
pub mod display;
pub mod error;
pub mod instruction;
pub mod keywait;
pub mod laws;
pub mod machine;
pub mod memory;
mod random;
pub mod registers;
pub mod stack;
pub mod timing;
