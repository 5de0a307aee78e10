//! Keeping interrupts away from the timing-sensitive part of a read.
//!
//! The sensor encodes bits in pulse lengths of a few tens of microseconds,
//! measured by polling. An interrupt served in the middle of a measurement
//! lengthens it. A read therefore suspends interrupts before it pulls the
//! line low and lets them through again as soon as the last pulse is timed,
//! or as soon as the read has failed. Making bytes of the pulses, checking
//! them and reading values off them is plain computation and is done after
//! interrupts are through again.

use vstd::prelude::*;

verus! {

/// The means to suspend interrupts and to let them through again.
pub trait InterruptControl {
    fn enable_interrupts(&mut self);

    fn disable_interrupts(&mut self);
}

/// An `InterruptControl` that does nothing, for platforms on which
/// interrupts do not disturb the measurement or cannot be suspended.
pub struct NoopInterruptControl;

impl InterruptControl for NoopInterruptControl {
    fn enable_interrupts(&mut self)
        ensures
            *final(self) == *old(self),
    {
    }

    fn disable_interrupts(&mut self)
        ensures
            *final(self) == *old(self),
    {
    }
}

} // verus!
