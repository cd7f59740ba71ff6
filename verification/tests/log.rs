use ku::error::Error;
use ku::log::collector::{EventEntry, FailureAction};
use ku::log::{level_into_symbol, level_try_from_symbol, LogCollector, LogField, LogFieldValue, LogLevel, LogMetadata};
use ku::time::Tsc;

#[test]
fn level_symbols_round_trip() {
    for level in [LogLevel::Error, LogLevel::Warn, LogLevel::Info, LogLevel::Debug, LogLevel::Trace] {
        assert_eq!(level_try_from_symbol(level_into_symbol(&level)), Ok(level));
    }
    assert_eq!(level_into_symbol(&LogLevel::Warn), 'W');
    assert_eq!(level_try_from_symbol('X'), Err(Error::InvalidArgument));
    assert_eq!(level_try_from_symbol('e'), Err(Error::InvalidArgument));
}

#[test]
fn log_metadata_keeps_its_parts() {
    let metadata = LogMetadata::new(Some("main.rs"), Some(17), LogLevel::Debug, "kernel", Tsc::new(5));
    assert_eq!(metadata.file(), Some("main.rs"));
    assert_eq!(metadata.line(), Some(17));
    assert_eq!(metadata.level(), Ok(LogLevel::Debug));
    assert_eq!(metadata.target(), "kernel");
    assert_eq!(metadata.timestamp(), Tsc::new(5));

    let field = LogField::new("answer", LogFieldValue::U64(42));
    assert_eq!(field.name(), "answer");
    assert!(matches!(field.value(), LogFieldValue::U64(42)));
}

#[test]
fn log_collector_takes_levels_up_to_its_own() {
    let collector = LogCollector::new(LogLevel::Debug);
    assert!(collector.enabled(LogLevel::Error));
    assert!(collector.enabled(LogLevel::Debug));
    assert!(!collector.enabled(LogLevel::Trace));
    assert!(!LogCollector::new(LogLevel::Error).enabled(LogLevel::Warn));
}

#[test]
fn log_collector_limits_nesting() {
    let mut collector = LogCollector::new(LogLevel::Debug);
    assert!(!collector.is_buzy());
    assert_eq!(collector.enter_event(), EventEntry::Record { recursive: false });
    assert!(collector.is_buzy());
    assert_eq!(collector.enter_event(), EventEntry::Record { recursive: true });
    assert_eq!(collector.enter_event(), EventEntry::Record { recursive: true });
    assert_eq!(collector.enter_event(), EventEntry::Skip);
    for _ in 0 .. 4 {
        collector.leave_event();
    }
    assert!(!collector.is_buzy());
}

#[test]
fn log_collector_retries_then_reports() {
    let mut collector = LogCollector::new(LogLevel::Debug);
    assert_eq!(collector.record_failed(false, 1, true), FailureAction::Retry);
    assert_eq!(collector.record_failed(false, 1, false), FailureAction::ReportLost);
    assert_eq!(collector.record_failed(false, 0, true), FailureAction::ReportLost);
    assert_eq!(collector.record_failed(true, 0, true), FailureAction::Counted);
    assert!(!collector.record_succeeded(true));
    assert!(collector.record_succeeded(false));
}

#[test]
fn log_collector_counts_lost_events() {
    let mut collector = LogCollector::new(LogLevel::Debug);
    assert_eq!(collector.begin_lost_statistics(), None);

    let snapshot = collector.begin_lost_message();
    assert_eq!(snapshot, 0);
    assert!(!collector.after_plan_b(snapshot));
    collector.after_plan_c(snapshot);

    let statistics = collector.begin_lost_statistics().unwrap();
    assert_eq!(statistics.recent, 1);
    assert_eq!(statistics.total, 1);
    assert_eq!(statistics.plan_b_failures, 0);
    collector.end_lost_statistics(statistics);
    assert_eq!(collector.begin_lost_statistics(), None);

    let snapshot = collector.begin_lost_message();
    assert_eq!(collector.record_failed(true, 0, false), FailureAction::Counted);
    assert!(collector.after_plan_b(snapshot));
    assert_eq!(collector.record_failed(true, 0, false), FailureAction::Counted);
    collector.after_plan_c(snapshot);

    let statistics = collector.begin_lost_statistics().unwrap();
    assert_eq!(statistics.recent, 1);
    assert_eq!(statistics.total, 2);
    assert_eq!(statistics.plan_b_failures, 1);
    assert_eq!(statistics.plan_c_failures, 1);
    assert_eq!(collector.record_failed(true, 0, false), FailureAction::Counted);
    collector.end_lost_statistics(statistics);
    let again = collector.begin_lost_statistics().unwrap();
    assert_eq!(again.recent, 1);
    assert_eq!(again.total, 2);
}
