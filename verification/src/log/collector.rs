//! The decisions of the log collector: which events it takes, how it retries a record that
//! did not fit, and how it counts and reports the events that were lost.
//!
//! Writing a record, flushing the log and emitting the collector's own error events is the
//! caller's part; it asks the collector at each step what to do next and tells it what
//! happened.

use vstd::prelude::*;

use super::LogLevel;

verus! {

/// How deep log events may nest inside the handling of another event.
pub const RECURSION_LIMIT: usize = 3;

/// How many times an event is written to the log, with a flush of the log in between.
pub const TRY_COUNT: usize = 2;

/// The rank of a log level by verbosity: the most severe level is the lowest.
pub open spec fn verbosity(level: LogLevel) -> int {
    match level {
        LogLevel::Error => 0,
        LogLevel::Warn => 1,
        LogLevel::Info => 2,
        LogLevel::Debug => 3,
        LogLevel::Trace => 4,
    }
}

/// The log levels in the order of `tracing`, from the most severe to the most verbose.
pub open spec fn levels_by_severity() -> Seq<LogLevel> {
    seq![LogLevel::Error, LogLevel::Warn, LogLevel::Info, LogLevel::Debug, LogLevel::Trace]
}

/// A collector of level `l` takes an event of level `m` (see `LogCollector::enabled`) exactly
/// where `m` comes no later than `l` in the order Error, Warn, Info, Debug, Trace: the
/// verbosity ranks strictly increase along that order, so that, for example, a collector of
/// level Debug takes Info events and one of level Info does not take Debug events.
pub proof fn lemma_enabled_by_severity(i: int, j: int)
    requires
        0 <= i < 5,
        0 <= j < 5,
    ensures
        verbosity(levels_by_severity()[i]) <= verbosity(levels_by_severity()[j]) <==> i <= j,
{
    let levels = levels_by_severity();
    assert(levels[0] == LogLevel::Error && levels[1] == LogLevel::Warn && levels[2] == LogLevel::Info
        && levels[3] == LogLevel::Debug && levels[4] == LogLevel::Trace);
}

/// The rank of the log level `level` by verbosity.
fn level_verbosity(level: LogLevel) -> (r: u8)
    ensures
        r == verbosity(level),
{
    match level {
        LogLevel::Error => 0,
        LogLevel::Warn => 1,
        LogLevel::Info => 2,
        LogLevel::Debug => 3,
        LogLevel::Trace => 4,
    }
}

/// What to do with a new event.
#[derive(Clone, Copy, Debug, PartialEq, Eq, Structural)]
pub enum EventEntry {
    /// Events nest too deep: drop this one.
    Skip,
    /// Write the event; `recursive` where it is logged while another event is handled.
    Record { recursive: bool },
}

/// What to do after a write of an event failed.
#[derive(Clone, Copy, Debug, PartialEq, Eq, Structural)]
pub enum FailureAction {
    /// Nothing: the event is written again.
    Retry,
    /// Nothing: the loss of a nested event was counted.
    Counted,
    /// Report the loss of the event with the collector's own error events.
    ReportLost,
}

/// The numbers that the report of lost events carries.
#[derive(Clone, Copy, Debug, PartialEq, Eq, Structural)]
pub struct LostStatistics {
    /// Events lost since the previous report.
    pub recent: usize,
    /// Events lost in all.
    pub total: usize,
    /// Lost events of which even the shortened report was lost.
    pub plan_b_failures: usize,
    /// Lost events of which every report was lost.
    pub plan_c_failures: usize,
    /// The count of lost nested events before the report was emitted.
    pub recursive_failure: usize,
}

/// The state of the log collector: the level it takes events up to, how deep events nest
/// right now, and the counts of lost events.
#[derive(Debug)]
pub struct LogCollector {
    level: LogLevel,
    lost_recently: usize,
    lost_totally: usize,
    plan_b_failures: usize,
    plan_c_failures: usize,
    recursion: usize,
    recursive_failure: usize,
}

impl LogCollector {
    /// The most verbose level taken.
    pub closed spec fn spec_level(&self) -> LogLevel {
        self.level
    }

    /// Events lost since the last report that got through.
    pub closed spec fn spec_lost_recently(&self) -> int {
        self.lost_recently as int
    }

    /// Events lost and reported.
    pub closed spec fn spec_lost_totally(&self) -> int {
        self.lost_totally as int
    }

    /// Lost events whose shortened report was lost too.
    pub closed spec fn spec_plan_b_failures(&self) -> int {
        self.plan_b_failures as int
    }

    /// Lost events whose every report was lost.
    pub closed spec fn spec_plan_c_failures(&self) -> int {
        self.plan_c_failures as int
    }

    /// How many events are being handled, one inside the other.
    pub closed spec fn spec_recursion(&self) -> int {
        self.recursion as int
    }

    /// Nested events lost since the last event that was written at the top level.
    pub closed spec fn spec_recursive_failure(&self) -> int {
        self.recursive_failure as int
    }

    /// Whether every count of the collector can grow by one: nesting, lost nested events,
    /// lost events (in all, recent and total together), and lost reports.
    pub open spec fn spec_has_room(&self) -> bool {
        &&& self.spec_recursion() < usize::MAX
        &&& self.spec_recursive_failure() < usize::MAX
        &&& self.spec_lost_recently() + self.spec_lost_totally() < usize::MAX
        &&& self.spec_plan_b_failures() < usize::MAX
        &&& self.spec_plan_c_failures() < usize::MAX
    }

    /// Whether every count of the collector can grow by one: see `spec_has_room`.
    pub fn has_room(&self) -> (r: bool)
        ensures
            r == self.spec_has_room(),
    {
        self.recursion < usize::MAX
            && self.recursive_failure < usize::MAX
            && self.lost_recently < usize::MAX - self.lost_totally
            && self.plan_b_failures < usize::MAX
            && self.plan_c_failures < usize::MAX
    }

    /// Whether the report `statistics` can be rolled back: its events are still in the total,
    /// and the recent count has room for them.
    pub fn can_roll_back(&self, statistics: LostStatistics) -> (r: bool)
        ensures
            r == (statistics.recent <= self.spec_lost_totally()
                && self.spec_lost_recently() + statistics.recent <= usize::MAX),
    {
        statistics.recent <= self.lost_totally && self.lost_recently <= usize::MAX - statistics.recent
    }

    /// A collector of the events of level `level` and more severe, with nothing lost.
    pub fn new(level: LogLevel) -> (r: Self)
        ensures
            r.spec_level() == level,
            r.spec_lost_recently() == 0,
            r.spec_lost_totally() == 0,
            r.spec_plan_b_failures() == 0,
            r.spec_plan_c_failures() == 0,
            r.spec_recursion() == 0,
            r.spec_recursive_failure() == 0,
    {
        LogCollector {
            level,
            lost_recently: 0,
            lost_totally: 0,
            plan_b_failures: 0,
            plan_c_failures: 0,
            recursion: 0,
            recursive_failure: 0,
        }
    }

    /// Whether an event is being logged right now.
    pub fn is_buzy(&self) -> (r: bool)
        ensures
            r == (self.spec_recursion() != 0),
    {
        self.recursion != 0
    }

    /// Whether events of level `level` are taken: those no more verbose than the collector's.
    pub fn enabled(&self, level: LogLevel) -> (r: bool)
        ensures
            r == (verbosity(level) <= verbosity(self.spec_level())),
    {
        level_verbosity(level) <= level_verbosity(self.level)
    }

    /// Starts the handling of an event: one more level of nesting. Events nested deeper than
    /// `RECURSION_LIMIT` are skipped.
    pub fn enter_event(&mut self) -> (r: EventEntry)
        requires
            old(self).spec_recursion() < usize::MAX,
        ensures
            final(self).spec_recursion() == old(self).spec_recursion() + 1,
            r == if final(self).spec_recursion() > RECURSION_LIMIT {
                EventEntry::Skip
            } else {
                EventEntry::Record { recursive: final(self).spec_recursion() > 1 }
            },
            final(self).spec_level() == old(self).spec_level(),
            final(self).spec_lost_recently() == old(self).spec_lost_recently(),
            final(self).spec_lost_totally() == old(self).spec_lost_totally(),
            final(self).spec_plan_b_failures() == old(self).spec_plan_b_failures(),
            final(self).spec_plan_c_failures() == old(self).spec_plan_c_failures(),
            final(self).spec_recursive_failure() == old(self).spec_recursive_failure(),
    {
        self.recursion = self.recursion + 1;
        if self.recursion > RECURSION_LIMIT {
            EventEntry::Skip
        } else {
            EventEntry::Record { recursive: self.recursion > 1 }
        }
    }

    /// Ends the handling of an event, whatever came of it.
    pub fn leave_event(&mut self)
        requires
            old(self).spec_recursion() > 0,
        ensures
            final(self).spec_recursion() == old(self).spec_recursion() - 1,
            final(self).spec_level() == old(self).spec_level(),
            final(self).spec_lost_recently() == old(self).spec_lost_recently(),
            final(self).spec_lost_totally() == old(self).spec_lost_totally(),
            final(self).spec_plan_b_failures() == old(self).spec_plan_b_failures(),
            final(self).spec_plan_c_failures() == old(self).spec_plan_c_failures(),
            final(self).spec_recursive_failure() == old(self).spec_recursive_failure(),
    {
        self.recursion = self.recursion - 1;
    }

    /// Decides what follows a failed write of an event, `tries_left` writes before the
    /// last one, after a flush of the log that `flushed` tells whether it happened. Where the
    /// log was flushed and a write is left, nothing; otherwise a nested event is counted as
    /// lost, and the loss of a top-level event is to be reported.
    pub fn record_failed(&mut self, recursive: bool, tries_left: usize, flushed: bool) -> (r: FailureAction)
        requires
            old(self).spec_recursive_failure() < usize::MAX,
        ensures
            r == if flushed && tries_left != 0 {
                FailureAction::Retry
            } else if recursive {
                FailureAction::Counted
            } else {
                FailureAction::ReportLost
            },
            final(self).spec_recursive_failure() == old(self).spec_recursive_failure()
                + if r == FailureAction::Counted { 1int } else { 0 },
            final(self).spec_level() == old(self).spec_level(),
            final(self).spec_lost_recently() == old(self).spec_lost_recently(),
            final(self).spec_lost_totally() == old(self).spec_lost_totally(),
            final(self).spec_plan_b_failures() == old(self).spec_plan_b_failures(),
            final(self).spec_plan_c_failures() == old(self).spec_plan_c_failures(),
            final(self).spec_recursion() == old(self).spec_recursion(),
    {
        if !flushed || tries_left == 0 {
            if recursive {
                self.recursive_failure = self.recursive_failure + 1;
                FailureAction::Counted
            } else {
                FailureAction::ReportLost
            }
        } else {
            FailureAction::Retry
        }
    }

    /// Notes that an event was written. After a top-level event the count of lost nested
    /// events starts over, and the lost events are to be reported: returns whether to.
    pub fn record_succeeded(&mut self, recursive: bool) -> (r: bool)
        ensures
            r == !recursive,
            final(self).spec_recursive_failure() == if recursive { old(self).spec_recursive_failure() } else { 0 },
            final(self).spec_level() == old(self).spec_level(),
            final(self).spec_lost_recently() == old(self).spec_lost_recently(),
            final(self).spec_lost_totally() == old(self).spec_lost_totally(),
            final(self).spec_plan_b_failures() == old(self).spec_plan_b_failures(),
            final(self).spec_plan_c_failures() == old(self).spec_plan_c_failures(),
            final(self).spec_recursion() == old(self).spec_recursion(),
    {
        if !recursive {
            self.recursive_failure = 0;
            true
        } else {
            false
        }
    }

    /// Starts the report of the events lost since the last one: where there are any, moves
    /// them from the recent count to the total and returns the numbers to report.
    pub fn begin_lost_statistics(&mut self) -> (r: Option<LostStatistics>)
        requires
            old(self).spec_lost_recently() + old(self).spec_lost_totally() <= usize::MAX,
        ensures
            old(self).spec_lost_recently() == 0 <==> r is None,
            r is None ==> *final(self) == *old(self),
            r matches Some(s) ==> {
                &&& s.recent == old(self).spec_lost_recently()
                &&& s.total == old(self).spec_lost_totally() + s.recent
                &&& s.plan_b_failures == old(self).spec_plan_b_failures()
                &&& s.plan_c_failures == old(self).spec_plan_c_failures()
                &&& s.recursive_failure == old(self).spec_recursive_failure()
                &&& final(self).spec_lost_recently() == 0
                &&& final(self).spec_lost_totally() == s.total
                &&& final(self).spec_plan_b_failures() == old(self).spec_plan_b_failures()
                &&& final(self).spec_plan_c_failures() == old(self).spec_plan_c_failures()
                &&& final(self).spec_recursive_failure() == old(self).spec_recursive_failure()
                &&& final(self).spec_recursion() == old(self).spec_recursion()
                &&& final(self).spec_level() == old(self).spec_level()
            },
            final(self).spec_lost_recently() + final(self).spec_lost_totally()
                == old(self).spec_lost_recently() + old(self).spec_lost_totally(),
    {
        let recent = self.lost_recently;
        if recent == 0 {
            return None;
        }
        self.lost_totally = self.lost_totally + recent;
        self.lost_recently = self.lost_recently - recent;
        Some(LostStatistics {
            recent,
            total: self.lost_totally,
            plan_b_failures: self.plan_b_failures,
            plan_c_failures: self.plan_c_failures,
            recursive_failure: self.recursive_failure,
        })
    }

    /// Ends the report of lost events `statistics` once it was emitted: where a nested event
    /// was lost meanwhile, the report itself is taken as lost and the counts are rolled back,
    /// so that the next report carries them again.
    pub fn end_lost_statistics(&mut self, statistics: LostStatistics)
        requires
            statistics.recent <= old(self).spec_lost_totally(),
            old(self).spec_lost_recently() + statistics.recent <= usize::MAX,
        ensures
            old(self).spec_recursive_failure() > statistics.recursive_failure ==> {
                &&& final(self).spec_lost_recently() == old(self).spec_lost_recently() + statistics.recent
                &&& final(self).spec_lost_totally() == old(self).spec_lost_totally() - statistics.recent
            },
            old(self).spec_recursive_failure() <= statistics.recursive_failure ==> *final(self) == *old(self),
            final(self).spec_lost_recently() + final(self).spec_lost_totally()
                == old(self).spec_lost_recently() + old(self).spec_lost_totally(),
            final(self).spec_plan_b_failures() == old(self).spec_plan_b_failures(),
            final(self).spec_plan_c_failures() == old(self).spec_plan_c_failures(),
            final(self).spec_recursive_failure() == old(self).spec_recursive_failure(),
            final(self).spec_recursion() == old(self).spec_recursion(),
            final(self).spec_level() == old(self).spec_level(),
    {
        if self.recursive_failure > statistics.recursive_failure {
            self.lost_recently = self.lost_recently + statistics.recent;
            self.lost_totally = self.lost_totally - statistics.recent;
        }
    }

    /// Starts the report of a lost top-level event: counts it as lost and returns the count
    /// of lost nested events, to tell afterwards whether the report got through.
    pub fn begin_lost_message(&mut self) -> (r: usize)
        requires
            old(self).spec_lost_recently() < usize::MAX,
        ensures
            r == old(self).spec_recursive_failure(),
            final(self).spec_lost_recently() == old(self).spec_lost_recently() + 1,
            final(self).spec_lost_totally() == old(self).spec_lost_totally(),
            final(self).spec_plan_b_failures() == old(self).spec_plan_b_failures(),
            final(self).spec_plan_c_failures() == old(self).spec_plan_c_failures(),
            final(self).spec_recursive_failure() == old(self).spec_recursive_failure(),
            final(self).spec_recursion() == old(self).spec_recursion(),
            final(self).spec_level() == old(self).spec_level(),
    {
        self.lost_recently = self.lost_recently + 1;
        self.recursive_failure
    }

    /// After the report with the prefix of the lost event was emitted: where a nested event
    /// was lost since `snapshot`, that report was lost, which is counted, and the report
    /// with the metadata alone is to be emitted: returns whether to.
    pub fn after_plan_b(&mut self, snapshot: usize) -> (r: bool)
        requires
            old(self).spec_plan_b_failures() < usize::MAX,
        ensures
            r == (old(self).spec_recursive_failure() > snapshot),
            final(self).spec_plan_b_failures() == old(self).spec_plan_b_failures() + if r { 1int } else { 0 },
            final(self).spec_lost_recently() == old(self).spec_lost_recently(),
            final(self).spec_lost_totally() == old(self).spec_lost_totally(),
            final(self).spec_plan_c_failures() == old(self).spec_plan_c_failures(),
            final(self).spec_recursive_failure() == old(self).spec_recursive_failure(),
            final(self).spec_recursion() == old(self).spec_recursion(),
            final(self).spec_level() == old(self).spec_level(),
    {
        if self.recursive_failure > snapshot {
            self.plan_b_failures = self.plan_b_failures + 1;
            true
        } else {
            false
        }
    }

    /// After the reports of a lost event: where two nested events were lost since
    /// `snapshot`, every report of it was lost, which is counted.
    pub fn after_plan_c(&mut self, snapshot: usize)
        requires
            old(self).spec_plan_c_failures() < usize::MAX,
        ensures
            final(self).spec_plan_c_failures() == old(self).spec_plan_c_failures()
                + if old(self).spec_recursive_failure() > snapshot + 1 { 1int } else { 0 },
            final(self).spec_lost_recently() == old(self).spec_lost_recently(),
            final(self).spec_lost_totally() == old(self).spec_lost_totally(),
            final(self).spec_plan_b_failures() == old(self).spec_plan_b_failures(),
            final(self).spec_recursive_failure() == old(self).spec_recursive_failure(),
            final(self).spec_recursion() == old(self).spec_recursion(),
            final(self).spec_level() == old(self).spec_level(),
    {
        if snapshot < self.recursive_failure && self.recursive_failure - snapshot > 1 {
            self.plan_c_failures = self.plan_c_failures + 1;
        }
    }
}

/// A report of lost events that gets through moves them all into the total; one that is
/// lost leaves the counts as they were. Either way no lost event is forgotten.
pub proof fn lemma_lost_statistics_kept(
    before: LogCollector,
    begun: LogCollector,
    statistics: LostStatistics,
    emitted: LogCollector,
    after: LogCollector,
)
    requires
        before.spec_lost_recently() > 0,
        statistics.recent == before.spec_lost_recently(),
        statistics.total == before.spec_lost_totally() + statistics.recent,
        statistics.recursive_failure == before.spec_recursive_failure(),
        begun.spec_lost_recently() == 0,
        begun.spec_lost_totally() == statistics.total,
        emitted.spec_lost_recently() == begun.spec_lost_recently(),
        emitted.spec_lost_totally() == begun.spec_lost_totally(),
        emitted.spec_recursive_failure() > statistics.recursive_failure ==> {
            &&& after.spec_lost_recently() == emitted.spec_lost_recently() + statistics.recent
            &&& after.spec_lost_totally() == emitted.spec_lost_totally() - statistics.recent
        },
        emitted.spec_recursive_failure() <= statistics.recursive_failure ==> after == emitted,
    ensures
        after.spec_lost_recently() + after.spec_lost_totally()
            == before.spec_lost_recently() + before.spec_lost_totally(),
        emitted.spec_recursive_failure() > statistics.recursive_failure ==> {
            &&& after.spec_lost_recently() == before.spec_lost_recently()
            &&& after.spec_lost_totally() == before.spec_lost_totally()
        },
        emitted.spec_recursive_failure() <= statistics.recursive_failure ==> {
            &&& after.spec_lost_recently() == 0
            &&& after.spec_lost_totally() == before.spec_lost_totally() + before.spec_lost_recently()
        },
{
}

} // verus!
