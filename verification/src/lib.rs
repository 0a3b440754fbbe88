//! An interpreter for a classic 8-bit virtual machine: 4096 bytes of memory,
//! sixteen 8-bit registers, a sixteen-entry call stack, a 64x32 monochrome
//! framebuffer, a sixteen-key pad and two count-down timers.
//!
//! The machine state lives in [`emulator::Emulator`]; one instruction is
//! interpreted per call to `tick`, and the two timers are decremented by
//! `tick_timers`.  The meaning of every instruction is written down once, as
//! the mathematical step function in [`step`], and the executable engine is
//! proved to follow it.

use vstd::prelude::*;

pub mod cycle;
pub mod decode;
pub mod emulator;
pub mod instructions;
pub mod laws;
pub mod screen;
pub mod step;

pub use emulator::Emulator;
pub use emulator::Fault;

verus! {

/// Width of the monochrome display in pixels.
pub const SCREEN_WIDTH: usize = 64;

/// Height of the monochrome display in pixels.
pub const SCREEN_HEIGHT: usize = 32;

/// Size of the addressable memory in bytes.
pub const RAM_SIZE: usize = 4096;

/// Number of general-purpose registers.
pub const REGISTER_COUNT: usize = 16;

/// Capacity of the call stack, in return addresses.
pub const STACK_SIZE: usize = 16;

/// Number of keys on the pad.
pub const NUM_KEYS: usize = 16;

/// Number of bytes taken by the built-in font: sixteen glyphs of five bytes.
pub const FONTSET_SIZE: usize = 80;

/// Address at which a program image is placed, and at which execution starts.
pub const START_ADDR: u16 = 0x200;

} // verus!
