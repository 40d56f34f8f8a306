//! A verified CHIP-8 virtual machine core.
//!
//! The crate provides the four pieces a host shell needs to run CHIP-8
//! programs: an opcode decoder, an execution engine with registers, memory,
//! a call stack and timers, a monochrome frame buffer with XOR sprite
//! drawing, and a 16-key input latch. The host shell owns the event loop
//! and rendering; the core owns all emulation state and semantics.

pub mod decoder;
pub mod framebuffer;
pub mod keypad;
pub mod machine;

pub use decoder::DecodeError;
pub use decoder::Op;
pub use decoder::decode;
pub use framebuffer::FrameBuffer;
pub use keypad::Keypad;
pub use machine::Machine;
pub use machine::VmError;
