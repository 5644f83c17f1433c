use vstd::prelude::*;

verus! {

/// Width of the monochrome framebuffer, in cells.
pub const CHIP8_WIDTH: usize = 64;

/// Height of the monochrome framebuffer, in cells.
pub const CHIP8_HEIGHT: usize = 32;

/// Number of cells in the framebuffer.
pub const CHIP8_FB_SIZE: usize = CHIP8_WIDTH * CHIP8_HEIGHT;

/// Size of the addressable memory, in bytes.
pub const CHIP8_MEMORY_SIZE: usize = 4096;

/// Address at which a loaded program starts; everything below is
/// reserved for the interpreter's font data.
pub const CHIP8_PROGRAM_START: u16 = 0x200;

/// Default target instruction rate, in instructions per second.
/// The 60 Hz timer cadence is gated on `cycle_count % (hz / 60)`,
/// so the rate is kept an exact multiple of 60.
pub const CHIP8_SPEED_HZ: u32 = 960;

/// Nanoseconds in one second.
pub const NANOS_PER_SEC: u64 = 1_000_000_000;

/// Sleep debt below which the pacing throttle defers sleeping (25 ms):
/// batching amortizes the scheduling error of coarse sleep primitives.
pub const SLEEP_THRESHOLD_NANOS: u64 = 25_000_000;

/// Suggested scaling factor between one cell and the window's pixels.
pub const CHIP8_WIN_SCALING_WIDTH: usize = 10;

/// Suggested scaling factor between one cell and the window's pixels.
pub const CHIP8_WIN_SCALING_HEIGHT: usize = 10;

} // verus!
