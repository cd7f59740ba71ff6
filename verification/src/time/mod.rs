//! Time keeping: the time stamp counter, frequencies, and the correlation of counter values
//! with the ticks of a clock.

use vstd::prelude::*;

pub mod correlation_interval;
pub mod correlation_point;
pub mod hz;
pub mod pit8254;
pub mod rtc;
pub mod tsc;

pub use correlation_interval::{AtomicCorrelationInterval, CorrelationInterval};
pub use correlation_point::{AtomicCorrelationPoint, CorrelationPoint};
pub use hz::Hz;
pub use tsc::{Tsc, TscDuration};

verus! {

/// Milliseconds in a second.
pub const MSECS_PER_SEC: i64 = 1_000;

/// Nanoseconds in a second.
pub const NSECS_PER_SEC: i64 = 1_000_000_000;

} // verus!
