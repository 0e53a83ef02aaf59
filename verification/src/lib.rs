//! Frame pacing and frame blitting for a bare-metal player of raw grayscale
//! video.
//!
//! The player runs under platform firmware. It picks a display mode, opens a
//! fixed-size raw asset and streams its frames into the frame buffer at a
//! constant rate. This crate holds the decisions and the arithmetic of that
//! pipeline; the firmware calls themselves are made by the program around it.

use vstd::prelude::*;

pub mod blit;
pub mod display;
pub mod frame;
pub mod pacing;
pub mod playback;
pub mod timestamp;

verus! {

/// Width of a source frame, in pixels.
pub const FRAME_WIDTH: usize = 480;

/// Height of a source frame, in pixels.
pub const FRAME_HEIGHT: usize = 360;

/// Frames shown per second.
pub const FRAME_RATE: usize = 30;

/// Bytes of one source frame: one grayscale byte per pixel.
pub const FRAME_SIZE: usize = FRAME_WIDTH * FRAME_HEIGHT;

/// Bytes that one pixel takes in the hardware frame buffer.
pub const BYTES_PER_PIXEL: usize = 4;

/// Microseconds in a second.
pub const MICROS_PER_SECOND: usize = 1_000_000;

/// Time budget of one frame, in microseconds.
pub const MICROS_PER_FRAME: usize = MICROS_PER_SECOND / FRAME_RATE;

} // verus!
