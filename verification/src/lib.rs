//! A CHIP-8 virtual machine: a fetch-decode-execute engine over flat memory,
//! sixteen 8-bit registers, a call stack, two countdown timers, a monochrome
//! framebuffer and a 16-key keypad. The machine semantics are stated as a
//! mathematical transition function and the executable engine is verified
//! against it.

pub mod decode;
pub mod error;
pub mod font;
pub mod laws;
mod rng;
pub mod semantics;
pub mod state;
pub mod vm;

pub use decode::Instruction;
pub use error::Chip8Error;
pub use state::State;
pub use vm::Chip8;
