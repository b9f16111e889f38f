//! A CHIP-8 virtual machine core with verified semantics: bit-level
//! instruction decoding, the fetch-decode-execute step over the full
//! documented opcode table, XOR sprite compositing with wraparound and
//! collision detection, and the snapshot-based keypad that a blocking input
//! instruction consumes.  Terminal rendering, raw keyboard input and ROM
//! file reading live outside the library and talk to it through plain
//! values.

pub mod cli;
pub mod display;
pub mod isa;
pub mod keyboard;
pub mod processor;
mod rng;
