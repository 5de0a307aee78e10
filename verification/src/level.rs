//! The two states of a digital line.

use vstd::prelude::*;

verus! {

/// Electrical level of a digital pin.
#[derive(Debug, Clone, Copy, PartialEq, Eq, Structural)]
pub enum Level {
    Low,
    High,
}

} // verus!
