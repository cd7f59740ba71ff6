use ku::info::SystemInfo;
use ku::time::correlation_interval::{frequency, new_correlation_interval};
use ku::time::correlation_point::{new_point, AtomicCorrelationPoint, CorrelationPoint};
use ku::time::tsc::{forge_tsc, Tsc, TscDuration};
use ku::time::{AtomicCorrelationInterval, Hz, NSECS_PER_SEC};

#[test]
fn tsc_laps() {
    let mut start = Tsc::new(100);
    assert_eq!(start.elapsed(forge_tsc(250)).get(), 150);
    assert_eq!(start.lap(forge_tsc(300)), TscDuration::new(200));
    assert_eq!(start.get(), 300);
}

#[test]
fn hz_is_never_zero() {
    assert!(Hz::new(0).is_none());
    assert_eq!(Hz::new(1_000).unwrap().get(), 1_000);
    assert!(frequency(-5).is_none());
    assert_eq!(frequency(42).unwrap().get(), 42);
}

#[test]
fn correlation_points() {
    let point = new_point(3, 1000);
    assert_eq!(point.count(), 3);
    assert_eq!(point.tsc(), 1000);
    assert!(point.is_valid());
    assert!(!CorrelationPoint::invalid(5).is_valid());
    assert_eq!(CorrelationPoint::now(1, 2), new_point(1, 2));
}

#[test]
fn atomic_correlation_point_reads_back_what_was_stored() {
    let atomic = AtomicCorrelationPoint::new();
    assert!(!atomic.is_valid());
    atomic.store(new_point(10, 500));
    assert!(atomic.is_valid());
    assert_eq!(atomic.try_load(), Some(new_point(10, 500)));
    atomic.inc(700);
    assert_eq!(atomic.try_load(), Some(new_point(11, 700)));
    assert!(AtomicCorrelationPoint::is_locked(3));
    assert_eq!(AtomicCorrelationPoint::accept(2, 1, 1, 4), None);
    assert_eq!(AtomicCorrelationPoint::accept(1, 1, 1, 1), None);
    assert_eq!(AtomicCorrelationPoint::accept(2, 1, 1, 2), Some(new_point(1, 1)));
}

#[test]
fn tsc_per_second_of_an_interval() {
    let interval = new_correlation_interval::<20>(1_000, 2_000);
    assert_eq!(interval.elapsed_count(), 1);
    assert_eq!(interval.elapsed_tsc(), 1_000);
    assert_eq!(interval.tsc_per_second(), 20_000);

    let atomic = AtomicCorrelationInterval::<1>::new();
    atomic.init_base(new_point(0, 100));
    atomic.init_base(new_point(5, 999));
    atomic.store_prev(new_point(2, 300));
    atomic.inc_prev(400);
    let loaded = atomic.try_load().unwrap();
    assert_eq!(loaded.elapsed_count(), 3);
    assert_eq!(loaded.tsc_per_second(), 100);
}

#[test]
fn timestamps_interpolate_between_the_points() {
    // One tick a second: counter 1000 at second 0, counter 2000 at second 1.
    let interval = new_correlation_interval::<1>(1_000, 2_000);
    assert_eq!(interval.timestamp_with_resolution::<1_000_000_000>(Tsc::new(1_000)), (0, 0));
    assert_eq!(interval.timestamp_with_resolution::<1_000_000_000>(Tsc::new(1_500)), (0, 500_000_000));
    assert_eq!(interval.timestamp_with_resolution::<1_000>(Tsc::new(2_250)), (1, 250_000_000));
    assert_eq!(interval.timestamp_with_resolution::<1>(Tsc::new(3_999)), (2, 0));
    assert_eq!(interval.timestamp_with_resolution::<1_000>(Tsc::new(1_000_333)), (999, 333_000_000));
    assert_eq!(
        interval.try_datetime_with_resolution::<1_000>(Tsc::new(2_250)),
        Some((1, 250_000_000))
    );
    assert_eq!(interval.datetime_with_resolution::<1>(Tsc::new(2_250)), (1, 0));
    assert_eq!(NSECS_PER_SEC, 1_000_000_000);
}

#[test]
fn system_info_starts_with_no_clock_readings() {
    let info = SystemInfo::new();
    let pit = info.pit().try_load().unwrap();
    assert_eq!(pit.elapsed_count(), 0);
    let rtc = info.rtc().try_load().unwrap();
    assert_eq!(rtc.elapsed_count(), 0);
    assert_eq!(ku::time::pit8254::TICKS_PER_SECOND as u32 * ku::time::pit8254::DIVISOR, ku::time::pit8254::BASE);
}

#[test]
fn datetime_interpolates_or_falls_back_to_the_latest_second() {
    let interval = new_correlation_interval::<1>(1_000, 2_000);
    assert!(interval.fits_at(Tsc::new(1_500)));
    assert_eq!(interval.datetime::<1_000>(Tsc::new(1_500)), Some((0, 500_000_000)));

    let atomic = AtomicCorrelationInterval::<20>::new();
    atomic.store_prev(new_point(45, 300));
    let coarse = atomic.try_load().unwrap();
    assert_eq!(coarse.elapsed_count(), 0);
    assert_eq!(coarse.datetime::<1_000>(Tsc::new(12_345)), Some((2, 0)));

    let far = new_correlation_interval::<1>(0, 1);
    assert!(!far.fits_at(Tsc::new(i64::MAX)));
}
