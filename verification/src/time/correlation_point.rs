use vstd::prelude::*;

use core::sync::atomic::{AtomicI64, AtomicU64};

verus! {

/// A tick count of a clock and the value of the time stamp counter at that tick.
/// A counter value of zero marks a point not yet measured.
#[derive(Clone, Copy, Debug, Default, PartialEq, Eq, Structural)]
pub struct CorrelationPoint {
    /// The tick count of the clock.
    count: i64,
    /// The value of the time stamp counter at that tick.
    tsc: i64,
}

impl CorrelationPoint {
    /// The tick count of the clock.
    pub closed spec fn spec_count(&self) -> i64 {
        self.count
    }

    /// The value of the time stamp counter at that tick.
    pub closed spec fn spec_tsc(&self) -> i64 {
        self.tsc
    }

    /// Whether the point was measured.
    pub open spec fn spec_is_valid(&self) -> bool {
        self.spec_tsc() != 0
    }

    /// Neither the count nor the counter value is negative.
    pub open spec fn wf(&self) -> bool {
        self.spec_count() >= 0 && self.spec_tsc() >= 0
    }

    /// The point of tick `count` at counter value `tsc`.
    pub fn new(count: i64, tsc: i64) -> (r: Self)
        requires
            count >= 0,
            tsc >= 0,
        ensures
            r.spec_count() == count,
            r.spec_tsc() == tsc,
            r.wf(),
    {
        CorrelationPoint { count, tsc }
    }

    /// The point of tick `count` measured now, where the counter reads `tsc`.
    pub fn now(count: i64, tsc: i64) -> (r: Self)
        requires
            count >= 0,
            tsc >= 0,
        ensures
            r.spec_count() == count,
            r.spec_tsc() == tsc,
    {
        Self::new(count, tsc)
    }

    /// The point of tick `count` with no counter value measured.
    pub fn invalid(count: i64) -> (r: Self)
        requires
            count >= 0,
        ensures
            r.spec_count() == count,
            r.spec_tsc() == 0,
            !r.spec_is_valid(),
    {
        Self::new(count, 0)
    }

    /// Whether the point was measured.
    pub fn is_valid(&self) -> (r: bool)
        ensures
            r == self.spec_is_valid(),
    {
        self.tsc != 0
    }

    /// The tick count of the clock.
    pub fn count(&self) -> (r: i64)
        ensures
            r == self.spec_count(),
    {
        self.count
    }

    /// The value of the time stamp counter at that tick.
    pub fn tsc(&self) -> (r: i64)
        ensures
            r == self.spec_tsc(),
    {
        self.tsc
    }
}

/// The point of tick `count` at counter value `tsc`.
pub fn new_point(count: i64, tsc: i64) -> (r: CorrelationPoint)
    requires
        count >= 0,
        tsc >= 0,
    ensures
        r.spec_count() == count,
        r.spec_tsc() == tsc,
{
    CorrelationPoint::new(count, tsc)
}

/// Whether a sequence number marks a write in progress: writers make it odd while they write.
pub open spec fn spec_is_locked(sequence: u64) -> bool {
    sequence % 2 == 1
}

/// What one attempt to read a point gives: the point read between the sequence numbers
/// `seq1` and `seq2`, where no write was in progress at the start and none happened in
/// between; `None` otherwise.
pub open spec fn read_attempt(seq1: u64, count: i64, tsc: i64, seq2: u64) -> Option<(i64, i64)> {
    if spec_is_locked(seq1) || seq1 != seq2 {
        None
    } else {
        Some((count, tsc))
    }
}

/// A correlation point that one writer updates while others read it, as a sequence lock:
/// the writer makes the sequence number odd while it writes, and a reader keeps what it read
/// only where the sequence number was even and unchanged.
#[derive(Debug, Default)]
pub struct AtomicCorrelationPoint {
    /// The tick count of the clock.
    count: AtomicI64,
    /// The sequence number of the writes.
    sequence: AtomicU64,
    /// The value of the time stamp counter at that tick.
    tsc: AtomicI64,
}

impl AtomicCorrelationPoint {
    /// A point at tick zero, not yet measured.
    pub fn new() -> (r: Self) {
        AtomicCorrelationPoint {
            count: AtomicI64::new(0),
            sequence: AtomicU64::new(0),
            tsc: AtomicI64::new(0),
        }
    }

    /// Whether the point was measured. What the writer stores concurrently decides the result.
    pub fn is_valid(&self) -> (r: bool) {
        let tsc = self.tsc.load(core::sync::atomic::Ordering::Relaxed);
        tsc != 0
    }

    /// Moves the point to the next tick, measured at counter value `tsc`.
    /// Only one writer may update the point at a time.
    pub fn inc(&self, tsc: i64) {
        self.sequence.fetch_add(1, core::sync::atomic::Ordering::Relaxed);
        self.count.fetch_add(1, core::sync::atomic::Ordering::Relaxed);
        self.tsc.store(tsc, core::sync::atomic::Ordering::Relaxed);
        self.sequence.fetch_add(1, core::sync::atomic::Ordering::Release);
    }

    /// Stores the point `correlation_point`.
    /// Only one writer may update the point at a time.
    pub fn store(&self, correlation_point: CorrelationPoint) {
        self.sequence.fetch_add(1, core::sync::atomic::Ordering::Relaxed);
        self.count.store(correlation_point.count(), core::sync::atomic::Ordering::Relaxed);
        self.tsc.store(correlation_point.tsc(), core::sync::atomic::Ordering::Relaxed);
        self.sequence.fetch_add(1, core::sync::atomic::Ordering::Release);
    }

    /// One attempt to read the point: `None` where a write was in progress or happened
    /// during the read. The writer decides what is read; see `read_attempt`.
    pub fn try_load(&self) -> (r: Option<CorrelationPoint>) {
        let seq1 = self.sequence.load(core::sync::atomic::Ordering::Acquire);
        if Self::is_locked(seq1) {
            return None;
        }
        let count = self.count.load(core::sync::atomic::Ordering::Relaxed);
        let tsc = self.tsc.load(core::sync::atomic::Ordering::Relaxed);
        let seq2 = self.sequence.load(core::sync::atomic::Ordering::Acquire);
        Self::accept(seq1, count, tsc, seq2)
    }

    /// Whether the sequence number `sequence` marks a write in progress.
    pub fn is_locked(sequence: u64) -> (r: bool)
        ensures
            r == spec_is_locked(sequence),
    {
        sequence % 2 == 1
    }

    /// The point read between the sequence numbers `seq1` and `seq2`, where the read is
    /// consistent.
    pub fn accept(seq1: u64, count: i64, tsc: i64, seq2: u64) -> (r: Option<CorrelationPoint>)
        ensures
            match read_attempt(seq1, count, tsc, seq2) {
                None => r is None,
                Some((c, t)) => r matches Some(p) && p.spec_count() == c && p.spec_tsc() == t,
            },
    {
        if Self::is_locked(seq1) || seq1 != seq2 {
            None
        } else {
            Some(CorrelationPoint { count, tsc })
        }
    }
}

/// One attempt to read the point `point`; see `AtomicCorrelationPoint::try_load`.
pub fn try_load(point: &AtomicCorrelationPoint) -> (r: Option<CorrelationPoint>) {
    point.try_load()
}

} // verus!
