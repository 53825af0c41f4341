//! An interpreter for the CHIP-8 virtual machine: memory, framebuffer,
//! keypad, and the fetch-decode-execute cycle, with each instruction's
//! effect stated over an abstract machine state.

pub mod error;
pub mod memory;
pub mod display;
pub mod keyboard;
pub mod machine;
pub mod cpu;
