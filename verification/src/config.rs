//! Build-time configuration of the display and of the frame timing.

use vstd::prelude::*;

verus! {

/// The display has this many rows of LEDs, and as many columns.
pub const ROW_COUNT: usize = 5;

/// Number of LEDs on the display.
pub const LED_COUNT: usize = ROW_COUNT * ROW_COUNT;

/// Each frame is shown for this long: ten frames per second.
pub const REFRESH_RATE_MS: u32 = 100;

/// A dead board is left on the display for this long before it is replaced.
pub const DEATH_RESET_RATE_MS: u32 = 500;

/// At most one complement action is honoured within this time.
pub const COMPLEMENT_RESET_RATE_MS: u32 = 500;

/// Frames that a dead board stays on the display.
pub const DEATH_RESET_FRAMES: u32 = DEATH_RESET_RATE_MS / REFRESH_RATE_MS;

/// Frames between two complement actions.
pub const COMPLEMENT_RESET_FRAMES: u32 = COMPLEMENT_RESET_RATE_MS / REFRESH_RATE_MS;

} // verus!
