//! A verified core for a CHIP-8 virtual machine: memory bank, register
//! file, call stack, framebuffer, timers, instruction dispatcher and a
//! fixed-rate cycle runner. Rendering, sound and key polling are left to
//! host-provided drivers behind the `VideoDriver`, `SoundDriver` and
//! `KeyboardDriver` traits.

pub mod errors;
pub mod memory;
pub mod video;
pub mod timers;
pub mod keyboard;
pub mod random;
pub mod instruction_decoder;
pub mod runner;
pub mod laws;
