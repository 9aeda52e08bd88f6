//! A verified CHIP-8 virtual machine: memory, registers, call stack,
//! timers, a monochrome framebuffer with XOR blitting, a 16-key keypad,
//! and the fetch-decode-execute engine over the full instruction set.
//!
//! The host (window, audio tone, event source, pacing) lives outside this
//! crate; it feeds normalized key events in and reads pixels and the sound
//! timer out.

pub mod audio;
pub mod cpu;
pub mod input;
pub mod video;
