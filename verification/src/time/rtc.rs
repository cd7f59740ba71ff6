//! The real-time clock and the rate it ticks at.

use vstd::prelude::*;

verus! {

/// The tick rate of the real-time clock: once a second.
pub const TICKS_PER_SECOND: u64 = 1;

} // verus!
