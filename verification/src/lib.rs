//! A verified CHIP-8 / SUPER-CHIP interpreter core.
//!
//! The `emu` module holds the instruction-set interpreter: the register file,
//! memory model, frame buffer and the fetch/decode/execute engine, each opcode
//! with an exact contract. The `metro` module holds the rate limiter that
//! paces emulation, timers and redraws. The `control` module holds the message
//! protocol and the per-iteration decisions of the emulation loop. The `laws`
//! module states and proves the properties that relate several operations.

use vstd::prelude::*;

pub mod control;
pub mod emu;
pub mod laws;
pub mod metro;

verus! {

/// Width of the pixel canvas. SUPER mode addresses all of it; STANDARD mode
/// addresses only the 64x32 sub-rectangle.
pub const GFX_W: usize = 132;

/// Height of the pixel canvas.
pub const GFX_H: usize = 64;

/// Width of the sub-rectangle addressed in STANDARD mode.
pub const SMALL_GFX_W: usize = 64;

/// Height of the sub-rectangle addressed in STANDARD mode.
pub const SMALL_GFX_H: usize = 32;

/// The two display/font addressing modes.
#[allow(non_camel_case_types)]
#[derive(Clone, Copy, Debug, PartialEq, Eq, Structural)]
pub enum Mode {
    STANDARD,
    SUPER,
}

} // verus!
