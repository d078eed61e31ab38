//! Execution core of a software CPU emulator: a machine-state model
//! (registers, program counter, stack pointer, flat little-endian memory)
//! and a dispatcher that applies one decoded instruction to that state.
//!
//! Every value is stored as a 64-bit signed integer; the effective width of
//! a read or write (1, 2, 4 or 8 bytes) is chosen by the instruction, and
//! narrowing always truncates and sign-extends back to 64 bits.

pub mod cpu;
pub mod instruction;
pub mod instruction_set;
pub mod machine_state;
pub mod width;
