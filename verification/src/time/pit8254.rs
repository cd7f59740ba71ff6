//! The legacy programmable interval timer Intel 8253/8254 and the rate it is set up to tick at.

use vstd::prelude::*;

verus! {

/// The base frequency of the timer in hertz.
pub const BASE: u32 = 1_193_180;

/// The rate the timer is set up to tick at: it divides the base frequency exactly.
pub const TICKS_PER_SECOND: u64 = 20;

/// The divisor of the base frequency that gives the tick rate.
pub const DIVISOR: u32 = 59_659;

/// The divisor gives the tick rate exactly.
pub proof fn lemma_divisor()
    ensures
        TICKS_PER_SECOND * DIVISOR == BASE,
{
}

} // verus!
