//! A CHIP-8 execution engine: opcode decoding, instruction semantics,
//! timer cadence, and real-time pacing, with machine-checked contracts.
//!
//! Presentation, audio output, key mapping and ROM loading are left to
//! collaborators: the machine exposes its framebuffer, keypad and
//! sound signal as plain data, and the pacing throttle is handed
//! measured durations instead of reading a clock.

pub mod constants;
pub mod exec;
pub mod insn;
pub mod laws;
pub mod machine;
mod rng;
pub mod sleeper;

pub use insn::{nibbles, Instruction};
pub use machine::{Chip8, Fault};
pub use sleeper::Sleeper;
