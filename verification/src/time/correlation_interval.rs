use vstd::prelude::*;

use chrono::{DateTime, Utc};

use super::correlation_point::{AtomicCorrelationPoint, CorrelationPoint};
use super::hz::Hz;
use super::tsc::Tsc;
use super::NSECS_PER_SEC;

verus! {

/// Whether chrono takes `secs` seconds and `nsecs` nanoseconds after the Unix epoch for a
/// moment in UTC.
pub uninterp spec fn chrono_accepts_timestamp(secs: i64, nsecs: u32) -> bool;

/// `chrono::DateTime::<Utc>::from_timestamp`, told by whether it gives a moment: it gives
/// `None` where the seconds are out of its range of years or the nanoseconds are not valid
/// for them. The contract only names the result: it depends on the arguments alone.
#[verifier::external_body]
fn accepts_timestamp(secs: i64, nsecs: u32) -> (r: bool)
    ensures
        r == chrono_accepts_timestamp(secs, nsecs),
{
    DateTime::<Utc>::from_timestamp(secs, nsecs).is_some()
}

/// The whole seconds and the nanoseconds past them, rounded down to a multiple of
/// `1 / parts` of a second, of the moment when the time stamp counter reads `tsc`,
/// interpolated between two correlation points of a clock of `ticks` ticks a second:
/// the base point (`base_count`, `base_tsc`) and the latest one (`prev_count`, `prev_tsc`).
/// The tick count is interpolated and rounded down, the ticks past the whole second turned
/// into nanoseconds and rounded down, and the nanoseconds of the remainder of the
/// interpolation added, rounded down too.
pub open spec fn timestamp_parts(
    base_count: int,
    base_tsc: int,
    prev_count: int,
    prev_tsc: int,
    tsc: int,
    ticks: int,
    parts: int,
) -> (int, int) {
    let count_diff = prev_count - base_count;
    let tsc_diff = prev_tsc - base_tsc;
    let product = count_diff * (tsc - base_tsc);
    let (offset, remainder) = if tsc_diff != 0 {
        (product / tsc_diff, product % tsc_diff)
    } else {
        (0, 0)
    };
    let total_ticks = base_count + offset;
    let nanoseconds = (total_ticks % ticks) * (NSECS_PER_SEC as int) / ticks
        + if tsc_diff != 0 { remainder * (NSECS_PER_SEC as int) / tsc_diff } else { 0 };
    let part = (NSECS_PER_SEC as int) / parts;
    (total_ticks / ticks + nanoseconds / (NSECS_PER_SEC as int), nanoseconds % (NSECS_PER_SEC as int) / part * part)
}

/// At a counter reading where the interpolation lands exactly on a tick, at tick count `n`,
/// the timestamp is the clock's reading of that tick: `n / ticks` whole seconds and the
/// `n % ticks` ticks past them as nanoseconds, `(n % ticks) * 10^9 / ticks`, rounded down to
/// the resolution of `parts` parts a second. `timestamp_with_resolution` returns these.
pub proof fn lemma_timestamp_at_tick(
    base_count: int,
    base_tsc: int,
    prev_count: int,
    prev_tsc: int,
    tsc: int,
    ticks: int,
    parts: int,
)
    requires
        prev_tsc != base_tsc,
        (prev_count - base_count) * (tsc - base_tsc) % (prev_tsc - base_tsc) == 0,
        1 <= ticks,
        1 <= parts <= NSECS_PER_SEC,
    ensures
        ({
            let n = base_count + (prev_count - base_count) * (tsc - base_tsc) / (prev_tsc - base_tsc);
            let part = (NSECS_PER_SEC as int) / parts;
            timestamp_parts(base_count, base_tsc, prev_count, prev_tsc, tsc, ticks, parts) == (
                n / ticks,
                (n % ticks) * (NSECS_PER_SEC as int) / ticks / part * part,
            )
        }),
{
    let n = base_count + (prev_count - base_count) * (tsc - base_tsc) / (prev_tsc - base_tsc);
    let r = n % ticks;
    let ns = r * (NSECS_PER_SEC as int) / ticks;
    assert(0 <= ns < NSECS_PER_SEC as int) by (nonlinear_arith)
        requires 0 <= r < ticks, ns == r * 1_000_000_000 / ticks, ticks >= 1;
    assert(0int * (NSECS_PER_SEC as int) / (prev_tsc - base_tsc) == 0) by (nonlinear_arith)
        requires prev_tsc != base_tsc;
    assert(ns / (NSECS_PER_SEC as int) == 0);
    assert(ns % (NSECS_PER_SEC as int) == ns);
}

/// Whether the interpolation of `timestamp_parts` stays within 64-bit signed integers
/// at each step, as its computation needs.
pub open spec fn timestamp_fits(
    base_count: int,
    base_tsc: int,
    prev_count: int,
    prev_tsc: int,
    tsc: int,
    ticks: int,
) -> bool {
    let tsc_diff = prev_tsc - base_tsc;
    let product = (prev_count - base_count) * (tsc - base_tsc);
    let offset = if tsc_diff != 0 { product / tsc_diff } else { 0 };
    &&& i64::MIN <= tsc - base_tsc <= i64::MAX
    &&& i64::MIN <= product <= i64::MAX
    &&& i64::MIN <= offset <= i64::MAX
    &&& i64::MIN <= base_count + offset <= i64::MAX
    &&& (base_count + offset) / ticks + 1 <= i64::MAX
    &&& (base_count + offset) / ticks - 1 >= i64::MIN
}

/// Two correlation points of a clock of `TICKS_PER_SECOND` ticks a second with the time
/// stamp counter: the first one measured (the base) and the latest one.
#[derive(Clone, Copy, Debug)]
pub struct CorrelationInterval<const TICKS_PER_SECOND: u64> {
    /// The first measured point.
    base: CorrelationPoint,
    /// The latest point.
    prev: CorrelationPoint,
}

impl<const TICKS_PER_SECOND: u64> CorrelationInterval<TICKS_PER_SECOND> {
    /// The first measured point.
    pub closed spec fn spec_base(&self) -> CorrelationPoint {
        self.base
    }

    /// The latest point.
    pub closed spec fn spec_prev(&self) -> CorrelationPoint {
        self.prev
    }

    /// The interval between the points `base` and `prev`.
    pub fn new(base: CorrelationPoint, prev: CorrelationPoint) -> (r: Self)
        ensures
            r.spec_base() == base,
            r.spec_prev() == prev,
    {
        CorrelationInterval { base, prev }
    }

    /// The ticks between the points, zero where either was not measured.
    pub open spec fn spec_elapsed_count(&self) -> int {
        if self.spec_base().spec_is_valid() && self.spec_prev().spec_is_valid() {
            self.spec_prev().spec_count() - self.spec_base().spec_count()
        } else {
            0
        }
    }

    /// The ticks between the points, zero where either was not measured.
    pub fn elapsed_count(&self) -> (r: i64)
        requires
            self.spec_base().wf(),
            self.spec_prev().wf(),
        ensures
            r == self.spec_elapsed_count(),
    {
        if self.base.is_valid() && self.prev.is_valid() {
            self.prev.count() - self.base.count()
        } else {
            0
        }
    }

    /// The counter ticks between the points, both of which were measured.
    pub fn elapsed_tsc(&self) -> (r: i64)
        requires
            self.spec_base().wf(),
            self.spec_prev().wf(),
            self.spec_base().spec_is_valid(),
            self.spec_prev().spec_is_valid(),
        ensures
            r == self.spec_prev().spec_tsc() - self.spec_base().spec_tsc(),
    {
        self.prev.tsc() - self.base.tsc()
    }

    /// The counter ticks per second: the counter ticks between the points over the clock
    /// ticks between them, rounded toward zero; zero where no tick passed between them.
    pub fn tsc_per_second(&self) -> (r: i64)
        requires
            self.spec_base().wf(),
            self.spec_prev().wf(),
            self.spec_elapsed_count() > 0 ==> TICKS_PER_SECOND * (self.spec_prev().spec_tsc()
                - self.spec_base().spec_tsc()) <= i64::MAX,
            self.spec_elapsed_count() > 0 ==> TICKS_PER_SECOND * (self.spec_prev().spec_tsc()
                - self.spec_base().spec_tsc()) >= i64::MIN,
        ensures
            self.spec_elapsed_count() > 0 ==> ({
                let product = TICKS_PER_SECOND * (self.spec_prev().spec_tsc() - self.spec_base().spec_tsc());
                r == if product >= 0 {
                    product / self.spec_elapsed_count()
                } else {
                    -((-product) / self.spec_elapsed_count())
                }
            }),
            self.spec_elapsed_count() <= 0 ==> r == 0,
    {
        let elapsed_count = self.elapsed_count();
        if elapsed_count > 0 {
            let elapsed_tsc = self.elapsed_tsc() as i128;
            let ticks = TICKS_PER_SECOND as i128;
            let product = ticks * elapsed_tsc;
            assert(product == TICKS_PER_SECOND * (self.spec_prev().spec_tsc() - self.spec_base().spec_tsc()));
            let product = product as i64;
            match product.checked_div(elapsed_count) {
                Some(q) => q,
                None => 0,
            }
        } else {
            0
        }
    }

    /// Whether the interpolation of the moment when the counter reads `tsc` stays within
    /// 64-bit signed integers: see `timestamp_fits`.
    pub fn fits_at(&self, tsc: Tsc) -> (r: bool)
        requires
            self.spec_base().wf(),
            self.spec_prev().wf(),
            1 <= TICKS_PER_SECOND <= 9_223_372_036,
        ensures
            r == timestamp_fits(
                self.spec_base().spec_count() as int,
                self.spec_base().spec_tsc() as int,
                self.spec_prev().spec_count() as int,
                self.spec_prev().spec_tsc() as int,
                tsc@ as int,
                TICKS_PER_SECOND as int,
            ),
    {
        let base_count = self.base.count() as i128;
        let base_tsc = self.base.tsc() as i128;
        let prev_count = self.prev.count() as i128;
        let prev_tsc = self.prev.tsc() as i128;
        let ticks = TICKS_PER_SECOND as i128;
        let min = i64::MIN as i128;
        let max = i64::MAX as i128;
        let offset_tsc = tsc.get() as i128 - base_tsc;
        if offset_tsc < min || offset_tsc > max {
            return false;
        }
        let count_diff = prev_count - base_count;
        assert(-0x4000_0000_0000_0000_0000_0000_0000_0000 <= count_diff * offset_tsc <= 0x4000_0000_0000_0000_0000_0000_0000_0000) by (nonlinear_arith)
            requires
                -0x8000_0000_0000_0000 <= count_diff <= 0x8000_0000_0000_0000,
                -0x8000_0000_0000_0000 <= offset_tsc <= 0x8000_0000_0000_0000,
        ;
        let product = count_diff * offset_tsc;
        if product < min || product > max {
            return false;
        }
        let tsc_diff = prev_tsc - base_tsc;
        let offset = if tsc_diff != 0 {
            assert(-0x8000_0000_0000_0000 <= product as int / (tsc_diff as int) <= 0x8000_0000_0000_0000) by (nonlinear_arith)
                requires
                    tsc_diff != 0,
                    -0x8000_0000_0000_0000 <= product <= 0x8000_0000_0000_0000,
            ;
            product.checked_div_euclid(tsc_diff).unwrap()
        } else {
            0i128
        };
        if offset < min || offset > max {
            return false;
        }
        let total_ticks = base_count + offset;
        if total_ticks < min || total_ticks > max {
            return false;
        }
        assert(-0x8000_0000_0000_0000 <= total_ticks as int / (ticks as int) <= 0x8000_0000_0000_0000) by (nonlinear_arith)
            requires
                ticks >= 1,
                -0x8000_0000_0000_0000 <= total_ticks <= 0x8000_0000_0000_0000,
        ;
        let seconds = total_ticks.checked_div_euclid(ticks).unwrap();
        seconds + 1 <= max && seconds - 1 >= min
    }

    /// The whole seconds and the nanoseconds of the moment when the counter reads `tsc`,
    /// with a resolution of `1 / PARTS_PER_SECOND` of a second: see `timestamp_parts`.
    pub fn timestamp_with_resolution<const PARTS_PER_SECOND: u64>(&self, tsc: Tsc) -> (r: (i64, u32))
        requires
            self.spec_base().wf(),
            self.spec_prev().wf(),
            1 <= TICKS_PER_SECOND <= 9_223_372_036,
            1 <= PARTS_PER_SECOND <= NSECS_PER_SEC,
            timestamp_fits(
                self.spec_base().spec_count() as int,
                self.spec_base().spec_tsc() as int,
                self.spec_prev().spec_count() as int,
                self.spec_prev().spec_tsc() as int,
                tsc@ as int,
                TICKS_PER_SECOND as int,
            ),
        ensures
            (r.0 as int, r.1 as int) == timestamp_parts(
                self.spec_base().spec_count() as int,
                self.spec_base().spec_tsc() as int,
                self.spec_prev().spec_count() as int,
                self.spec_prev().spec_tsc() as int,
                tsc@ as int,
                TICKS_PER_SECOND as int,
                PARTS_PER_SECOND as int,
            ),
    {
        let base_count = self.base.count() as i128;
        let base_tsc = self.base.tsc() as i128;
        let prev_count = self.prev.count() as i128;
        let prev_tsc = self.prev.tsc() as i128;
        let tsc_value = tsc.get() as i128;
        let ticks = TICKS_PER_SECOND as i128;
        let nsecs = NSECS_PER_SEC as i128;

        let count_diff = prev_count - base_count;
        let tsc_diff = prev_tsc - base_tsc;
        let product = count_diff * (tsc_value - base_tsc);
        let (offset, remainder) = if tsc_diff != 0 {
            (product.checked_div_euclid(tsc_diff).unwrap(), product.checked_rem_euclid(tsc_diff).unwrap())
        } else {
            (0i128, 0i128)
        };
        let total_ticks = base_count + offset;
        let seconds = total_ticks.checked_div_euclid(ticks).unwrap();
        let in_second = total_ticks.checked_rem_euclid(ticks).unwrap();
        assert(0 <= in_second < ticks);
        assert(in_second * nsecs <= 9_223_372_036 * 1_000_000_000) by (nonlinear_arith)
            requires 0 <= in_second < ticks, ticks <= 9_223_372_036, nsecs == 1_000_000_000;
        let from_ticks = (in_second * nsecs).checked_div_euclid(ticks).unwrap();
        assert(0 <= from_ticks < nsecs) by (nonlinear_arith)
            requires 0 <= in_second < ticks, from_ticks == (in_second * nsecs) / (ticks as int), nsecs == 1_000_000_000;
        let fraction = if tsc_diff != 0 {
            assert(0 <= remainder < (if tsc_diff > 0 { tsc_diff as int } else { -tsc_diff }));
            assert(remainder * nsecs <= 1_000_000_000 * 0x1_0000_0000_0000_0000) by (nonlinear_arith)
                requires 0 <= remainder <= 0x1_0000_0000_0000_0000, nsecs == 1_000_000_000;
            let scaled = remainder * nsecs;
            assert(0 <= scaled as int / (tsc_diff as int) <= scaled || -scaled <= scaled as int / (tsc_diff as int) <= 0) by (nonlinear_arith)
                requires 0 <= scaled, tsc_diff != 0;
            let f = scaled.checked_div_euclid(tsc_diff).unwrap();
            assert(-nsecs <= f <= nsecs) by (nonlinear_arith)
                requires
                    0 <= remainder,
                    remainder < tsc_diff || remainder < -tsc_diff,
                    f == (remainder * nsecs) as int / (tsc_diff as int),
                    tsc_diff != 0,
                    nsecs == 1_000_000_000;
            f
        } else {
            0i128
        };
        let nanoseconds = from_ticks + fraction;
        let part = nsecs.checked_div_euclid(PARTS_PER_SECOND as i128).unwrap();
        assert(1 <= part <= nsecs) by (nonlinear_arith)
            requires part == nsecs as int / (PARTS_PER_SECOND as int), 1 <= PARTS_PER_SECOND <= nsecs, nsecs == 1_000_000_000;
        let extra = nanoseconds.checked_div_euclid(nsecs).unwrap();
        let within = nanoseconds.checked_rem_euclid(nsecs).unwrap();
        assert(-2 <= extra <= 1) by (nonlinear_arith)
            requires extra == nanoseconds as int / (nsecs as int), -nsecs <= nanoseconds < 2 * nsecs, nsecs == 1_000_000_000;
        let parts = within.checked_div_euclid(part).unwrap();
        assert(0 <= parts * part <= within) by (nonlinear_arith)
            requires parts == within as int / (part as int), 0 <= within, part >= 1;
        let final_seconds = seconds + extra;
        (final_seconds as i64, (parts * part) as u32)
    }

    /// The moment when the counter reads `tsc`, with a resolution of `1 / PARTS_PER_SECOND`
    /// of a second, as the whole seconds and nanoseconds after the Unix epoch of a moment in
    /// UTC (see `timestamp_with_resolution`); chrono must take it for a moment.
    pub fn datetime_with_resolution<const PARTS_PER_SECOND: u64>(&self, tsc: Tsc) -> (r: (i64, u32))
        requires
            self.spec_base().wf(),
            self.spec_prev().wf(),
            1 <= TICKS_PER_SECOND <= 9_223_372_036,
            1 <= PARTS_PER_SECOND <= NSECS_PER_SEC,
            timestamp_fits(
                self.spec_base().spec_count() as int,
                self.spec_base().spec_tsc() as int,
                self.spec_prev().spec_count() as int,
                self.spec_prev().spec_tsc() as int,
                tsc@ as int,
                TICKS_PER_SECOND as int,
            ),
            ({
                let (secs, nsecs) = timestamp_parts(
                    self.spec_base().spec_count() as int,
                    self.spec_base().spec_tsc() as int,
                    self.spec_prev().spec_count() as int,
                    self.spec_prev().spec_tsc() as int,
                    tsc@ as int,
                    TICKS_PER_SECOND as int,
                    PARTS_PER_SECOND as int,
                );
                chrono_accepts_timestamp(secs as i64, nsecs as u32)
            }),
        ensures
            (r.0 as int, r.1 as int) == timestamp_parts(
                self.spec_base().spec_count() as int,
                self.spec_base().spec_tsc() as int,
                self.spec_prev().spec_count() as int,
                self.spec_prev().spec_tsc() as int,
                tsc@ as int,
                TICKS_PER_SECOND as int,
                PARTS_PER_SECOND as int,
            ),
    {
        self.timestamp_with_resolution::<PARTS_PER_SECOND>(tsc)
    }

    /// The moment when the counter reads `tsc`, as `datetime_with_resolution` gives it,
    /// or `None` where chrono does not take it for a moment.
    pub fn try_datetime_with_resolution<const PARTS_PER_SECOND: u64>(&self, tsc: Tsc) -> (r: Option<(i64, u32)>)
        requires
            self.spec_base().wf(),
            self.spec_prev().wf(),
            1 <= TICKS_PER_SECOND <= 9_223_372_036,
            1 <= PARTS_PER_SECOND <= NSECS_PER_SEC,
            timestamp_fits(
                self.spec_base().spec_count() as int,
                self.spec_base().spec_tsc() as int,
                self.spec_prev().spec_count() as int,
                self.spec_prev().spec_tsc() as int,
                tsc@ as int,
                TICKS_PER_SECOND as int,
            ),
        ensures
            ({
                let (secs, nsecs) = timestamp_parts(
                    self.spec_base().spec_count() as int,
                    self.spec_base().spec_tsc() as int,
                    self.spec_prev().spec_count() as int,
                    self.spec_prev().spec_tsc() as int,
                    tsc@ as int,
                    TICKS_PER_SECOND as int,
                    PARTS_PER_SECOND as int,
                );
                if chrono_accepts_timestamp(secs as i64, nsecs as u32) {
                    r == Some((secs as i64, nsecs as u32))
                } else {
                    r is None
                }
            }),
    {
        let (secs, nsecs) = self.timestamp_with_resolution::<PARTS_PER_SECOND>(tsc);
        if accepts_timestamp(secs, nsecs) {
            Some(self.datetime_with_resolution::<PARTS_PER_SECOND>(tsc))
        } else {
            None
        }
    }

    /// The moment when the counter reads `tsc`, as the whole seconds and nanoseconds after
    /// the Unix epoch: interpolated with a resolution of `1 / PARTS_PER_SECOND` of a second
    /// where a tick passed between the points, else the moment of the latest point to the
    /// second, whatever `tsc` is. `None` where chrono does not take it for a moment.
    pub fn datetime<const PARTS_PER_SECOND: u64>(&self, tsc: Tsc) -> (r: Option<(i64, u32)>)
        requires
            self.spec_base().wf(),
            self.spec_prev().wf(),
            1 <= TICKS_PER_SECOND <= 9_223_372_036,
            1 <= PARTS_PER_SECOND <= NSECS_PER_SEC,
            self.spec_elapsed_count() > 0 ==> timestamp_fits(
                self.spec_base().spec_count() as int,
                self.spec_base().spec_tsc() as int,
                self.spec_prev().spec_count() as int,
                self.spec_prev().spec_tsc() as int,
                tsc@ as int,
                TICKS_PER_SECOND as int,
            ),
        ensures
            self.spec_elapsed_count() > 0 ==> ({
                let (secs, nsecs) = timestamp_parts(
                    self.spec_base().spec_count() as int,
                    self.spec_base().spec_tsc() as int,
                    self.spec_prev().spec_count() as int,
                    self.spec_prev().spec_tsc() as int,
                    tsc@ as int,
                    TICKS_PER_SECOND as int,
                    PARTS_PER_SECOND as int,
                );
                if chrono_accepts_timestamp(secs as i64, nsecs as u32) {
                    r == Some((secs as i64, nsecs as u32))
                } else {
                    r is None
                }
            }),
            self.spec_elapsed_count() <= 0 ==> ({
                let secs = (self.spec_prev().spec_count() as int / (TICKS_PER_SECOND as int)) as i64;
                if chrono_accepts_timestamp(secs, 0) { r == Some((secs, 0u32)) } else { r is None }
            }),
    {
        if self.elapsed_count() > 0 {
            self.try_datetime_with_resolution::<PARTS_PER_SECOND>(tsc)
        } else {
            match self.coarse_datetime() {
                Some(secs) => Some((secs, 0)),
                None => None,
            }
        }
    }

    /// The moment of the latest point, to the whole second, for an interval where no tick
    /// passed between its points, as the seconds after the Unix epoch; `None` where chrono
    /// does not take it for a moment.
    pub fn coarse_datetime(&self) -> (r: Option<i64>)
        requires
            1 <= TICKS_PER_SECOND <= i64::MAX,
            self.spec_prev().wf(),
        ensures
            ({
                let secs = (self.spec_prev().spec_count() as int / (TICKS_PER_SECOND as int)) as i64;
                if chrono_accepts_timestamp(secs, 0) { r == Some(secs) } else { r is None }
            }),
    {
        let ticks = TICKS_PER_SECOND as i64;
        let seconds = self.prev.count() / ticks;
        if accepts_timestamp(seconds, 0) {
            Some(seconds)
        } else {
            None
        }
    }
}

/// The interval of a clock from the base point of tick zero at counter value `base_tsc` to the
/// point of tick one at counter value `prev_tsc`.
pub fn new_correlation_interval<const TICKS_PER_SECOND: u64>(base_tsc: i64, prev_tsc: i64) -> (r: CorrelationInterval<TICKS_PER_SECOND>)
    requires
        base_tsc >= 0,
        prev_tsc >= 0,
    ensures
        r.spec_base().spec_count() == 0,
        r.spec_base().spec_tsc() == base_tsc,
        r.spec_prev().spec_count() == 1,
        r.spec_prev().spec_tsc() == prev_tsc,
        r.spec_base().wf(),
        r.spec_prev().wf(),
{
    CorrelationInterval {
        base: CorrelationPoint::new(0, base_tsc),
        prev: CorrelationPoint::new(1, prev_tsc),
    }
}

/// Two correlation points that one writer updates while others read them.
#[derive(Debug)]
pub struct AtomicCorrelationInterval<const TICKS_PER_SECOND: u64> {
    /// The first measured point.
    base: AtomicCorrelationPoint,
    /// The latest point.
    prev: AtomicCorrelationPoint,
}

impl<const TICKS_PER_SECOND: u64> AtomicCorrelationInterval<TICKS_PER_SECOND> {
    /// An interval of two points not yet measured.
    pub fn new() -> (r: Self) {
        AtomicCorrelationInterval { base: AtomicCorrelationPoint::new(), prev: AtomicCorrelationPoint::new() }
    }

    /// One attempt to read both points; `None` where a write got in the way of either.
    pub fn try_load(&self) -> (r: Option<CorrelationInterval<TICKS_PER_SECOND>>) {
        match self.base.try_load() {
            None => None,
            Some(base) => match self.prev.try_load() {
                None => None,
                Some(prev) => Some(CorrelationInterval { base, prev }),
            },
        }
    }

    /// Stores `base` as the base point where none is measured yet.
    pub fn init_base(&self, base: CorrelationPoint) {
        if !self.base.is_valid() {
            self.base.store(base);
        }
    }

    /// Stores `prev` as the latest point.
    pub fn store_prev(&self, prev: CorrelationPoint) {
        self.prev.store(prev);
    }

    /// Moves the latest point to the next tick, measured at counter value `tsc`.
    pub fn inc_prev(&self, tsc: i64) {
        self.prev.inc(tsc);
    }
}

/// The frequency that counter ticks per second `tsc_per_second` make, `None` where they are
/// not positive.
pub fn frequency(tsc_per_second: i64) -> (r: Option<Hz>)
    ensures
        tsc_per_second <= 0 ==> r is None,
        tsc_per_second > 0 ==> (r matches Some(f) && f@ == tsc_per_second),
{
    if tsc_per_second > 0 {
        Hz::new(tsc_per_second as u64)
    } else {
        None
    }
}

} // verus!
