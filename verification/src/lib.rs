//! A verified interpreter core for an 8-bit retro computing platform: the
//! 4096-byte machine state, the fetch-decode-execute cycle with its two
//! countdown timers, the XOR-blitted monochrome framebuffer, and the program
//! loader.
//!
//! `machine` holds the mathematical model every contract speaks of, `decode`
//! the opcode-word decoder, `chip8` the executable interpreter, and `laws`
//! the general properties proved of the instruction semantics.

pub mod chip8;
pub mod decode;
pub mod laws;
pub mod machine;
