//! A CHIP-8 virtual machine: a fetch-decode-execute interpreter over the
//! classic instruction set, driving a monochrome framebuffer, a 16-key
//! input device, two countdown timers, and a call stack.
//!
//! The machine state is modelled by ghost views (sequences of bytes and
//! pixels), and every instruction's effect on that model is stated in the
//! contracts of the executing functions.

pub mod audio;
pub mod cpu;
pub mod error;
pub mod instruction;
pub mod keyboard;
pub mod laws;
pub mod machine;
pub mod memory;
pub mod program;
pub mod stack;
pub mod vram;
