//! What the drivers need of the hardware.
//!
//! The drivers in this crate are written against these three traits and
//! nothing else. They promise nothing about what a pin or a timer does, so a
//! driver is verified for every behaviour of the hardware.

use crate::level::Level;
use vstd::prelude::*;

verus! {

/// A timer to wait on.
pub trait Delay {
    /// Blocks for this many milliseconds.
    fn delay_ms(&mut self, ms: u32);

    /// Blocks for this many microseconds.
    fn delay_us(&mut self, us: u32);
}

/// A pin that can be driven and sampled, such as an open-drain pin with a
/// pull-up.
pub trait IoPin {
    /// What the pin reports when it cannot be driven or sampled.
    type Error;

    /// Drives the line low.
    fn set_low(&mut self) -> Result<(), Self::Error>;

    /// Releases the line high.
    fn set_high(&mut self) -> Result<(), Self::Error>;

    /// Whether the line is high.
    fn is_high(&mut self) -> Result<bool, Self::Error>;

    /// Whether the line is low.
    fn is_low(&mut self) -> Result<bool, Self::Error>;
}

/// A pin that can be driven.
pub trait OutPin {
    /// What the pin reports when it cannot be driven.
    type Error;

    /// Drives the pin to a level.
    fn set_state(&mut self, level: Level) -> Result<(), Self::Error>;
}

} // verus!
