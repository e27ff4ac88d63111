//! A CHIP-8 virtual machine: 4 KB of memory, sixteen 8-bit registers, a
//! bounded call stack, a 64x32 monochrome framebuffer, a 16-key pad and two
//! 60 Hz countdown timers, driven by a fetch-decode-execute cycle whose
//! opcode semantics are stated and proved bit-exactly.

pub mod decode;
pub mod draw;
pub mod state;
pub mod chipate;

pub use crate::chipate::Chipate;
pub use crate::state::Fault;
pub use crate::state::LoadError;
