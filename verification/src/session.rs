//! The fuzzing loop, seen from the side that decides.
//!
//! Running the target is left to the caller. The session is told how each
//! run ended, keeps the statistics, and answers with what is to be kept of
//! the attempt.

use crate::anomaly::{AnomalyDetector, RunningStats};
use crate::artifact::{crash_path, crash_path_text, dos_path, dos_path_text};
use crate::crash::{classify, kind_of, AttemptEvents, CrashKind, FuzzStats};
use crate::strategy::Strategy;
use crate::text::text_of;
use vstd::prelude::*;

verus! {

/// After how many attempts the caller is asked to show progress.
pub const PROGRESS_INTERVAL: u64 = 10;

/// How a run of the target ended.
#[derive(Debug)]
pub struct ExecutionResult {
    /// From start to exit, in microseconds.
    pub duration_micros: u64,
    /// The signal that ended the run, if one did. An exit code is no crash.
    pub signal: Option<i32>,
    pub stdout: Vec<u8>,
    pub stderr: Vec<u8>,
}

/// What is to be done about an attempt.
#[derive(Debug, PartialEq, Eq)]
pub struct AttemptReport {
    /// The number of the attempt, counted from one.
    pub attempt: u64,
    /// What the attempt added to the tallies.
    pub events: AttemptEvents,
    /// Where to keep the input, if the run was a denial of service.
    pub dos_artifact: Option<String>,
    /// Where to keep the input, if the run crashed.
    pub crash_artifact: Option<String>,
}

/// What an attempt adds to the tallies: which strategy made the input,
/// whether the run was flagged as a denial of service, and the crash that
/// its signal stands for.
pub open spec fn events_of_run(strategy: Strategy, dos: bool, signal: Option<i32>) -> AttemptEvents {
    AttemptEvents {
        strategy,
        dos,
        crash: match signal {
            Some(number) => Some(kind_of(number)),
            None => None,
        },
    }
}

/// The state of a fuzzing run between two attempts.
#[derive(Clone, Copy, Debug)]
pub struct FuzzSession {
    detector: AnomalyDetector,
    timing: RunningStats,
    stats: FuzzStats,
}

impl FuzzSession {
    /// The tallies agree with each other, and no more events were
    /// counted than attempts were made.
    #[verifier::type_invariant]
    spec fn well_formed(self) -> bool {
        self.stats.consistent() && self.stats.events() <= self.timing.count()
    }

    /// The detector's settings.
    pub closed spec fn settings(self) -> AnomalyDetector {
        self.detector
    }

    /// The durations of the runs so far.
    pub closed spec fn durations(self) -> RunningStats {
        self.timing
    }

    /// The tallies so far.
    pub closed spec fn tallies(self) -> FuzzStats {
        self.stats
    }

    /// The number of attempts so far.
    pub open spec fn attempts(self) -> nat {
        self.durations().count()
    }

    /// A session before its first attempt.
    pub fn new(detector: AnomalyDetector) -> (session: FuzzSession)
        ensures
            session.settings() == detector,
            session.attempts() == 0,
            session.durations().total() == 0,
            session.tallies() == FuzzStats::new_tallies(),
    {
        FuzzSession { detector, timing: RunningStats::new(), stats: FuzzStats::new() }
    }

    /// The detector's settings.
    pub fn detector(&self) -> (detector: AnomalyDetector)
        ensures
            detector == self.settings(),
    {
        self.detector
    }

    /// The durations of the runs so far.
    pub fn running_stats(&self) -> (timing: RunningStats)
        ensures
            timing == self.durations(),
    {
        self.timing
    }

    /// The tallies. They agree with each other, and hold no more events
    /// than there were attempts.
    pub fn stats(&self) -> (stats: FuzzStats)
        ensures
            stats == self.tallies(),
            stats.consistent(),
            stats.events() <= self.attempts(),
    {
        proof {
            use_type_invariant(self);
        }
        self.stats
    }

    /// The number of the attempt that comes next, counted from one.
    pub fn next_attempt(&self) -> (number: u64)
        requires
            self.attempts() < u64::MAX,
        ensures
            number == self.attempts() + 1,
    {
        self.timing.attempt_count() + 1
    }

    /// Whether another attempt is to be made on a budget of `budget`:
    /// attempts are made as long as their number stays below the budget.
    pub fn has_budget(&self, budget: u64) -> (more: bool)
        ensures
            more == (self.attempts() + 1 < budget),
    {
        let made: u64 = self.timing.attempt_count();
        made < budget && made + 1 < budget
    }

    /// Whether progress is to be shown before the next attempt.
    pub fn progress_due(&self) -> (due: bool)
        ensures
            due == ((self.attempts() + 1) % (PROGRESS_INTERVAL as nat) == 0),
    {
        let made: u64 = self.timing.attempt_count();
        made % PROGRESS_INTERVAL == PROGRESS_INTERVAL - 1
    }

    /// Takes note of an attempt: the strategy that made the input, and how
    /// the run on it ended.
    ///
    /// The run is judged against the mean of the runs before it, and its
    /// duration then enters the mean. A run that ended by a signal is a
    /// crash, whatever the signal. The report names a file for the input
    /// for each of the two, and the tallies count the attempt once for its
    /// strategy if it was either.
    pub fn record_attempt(&mut self, strategy: Strategy, result: &ExecutionResult) -> (report: AttemptReport)
        requires
            old(self).attempts() < u64::MAX,
        ensures
            final(self).settings() == old(self).settings(),
            final(self).attempts() == old(self).attempts() + 1,
            final(self).durations().total() == old(self).durations().total() + result.duration_micros,
            report.attempt == final(self).attempts(),
            report.events == events_of_run(
                strategy,
                old(self).settings().flags(
                    result.duration_micros as nat,
                    final(self).attempts(),
                    old(self).durations().mean(),
                ),
                result.signal,
            ),
            final(self).tallies() == old(self).tallies().with(report.events),
            text_of(report.dos_artifact) == if report.events.dos {
                Some(dos_path_text(strategy, report.attempt as nat, result.duration_micros as nat))
            } else {
                None
            },
            text_of(report.crash_artifact) == if report.events.crash is Some {
                Some(crash_path_text(strategy, report.attempt as nat))
            } else {
                None
            },
    {
        proof {
            use_type_invariant(&*self);
        }
        let (dos, timing) = self.detector.observe(result.duration_micros, self.timing);
        let attempt: u64 = timing.attempt_count();
        let crash: Option<CrashKind> = match result.signal {
            Some(number) => Some(classify(number)),
            None => None,
        };
        let events = AttemptEvents { strategy, dos, crash };
        let mut stats: FuzzStats = self.stats;
        stats.record(events);
        let dos_artifact: Option<String> = if dos {
            Some(dos_path(strategy, attempt, result.duration_micros))
        } else {
            None
        };
        let crash_artifact: Option<String> = if crash.is_some() {
            Some(crash_path(strategy, attempt))
        } else {
            None
        };
        *self = FuzzSession { detector: self.detector, timing, stats };
        AttemptReport { attempt, events, dos_artifact, crash_artifact }
    }
}

} // verus!
