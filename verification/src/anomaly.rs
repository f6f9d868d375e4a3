//! Telling runs that take far longer than the others.
//!
//! The detector keeps the mean duration of all runs so far. A run counts as
//! a denial of service when it lasts longer than a multiple of the mean of
//! the runs before it, but not during the first runs, when the mean says
//! little. Only then does the run enter the mean itself.

use vstd::prelude::*;

verus! {

/// The mean duration that stands in before any run was recorded.
pub const SEED_MEAN_MICROS: u64 = 1;

/// The number of runs after which a slow run is first flagged.
pub const DEFAULT_WARMUP: u64 = 100;

/// How many times the mean a run must exceed to be flagged.
pub const DEFAULT_MULTIPLIER: u64 = 100;

/// The sum of the durations.
pub open spec fn total_of(durations: Seq<u64>) -> nat
    decreases durations.len(),
{
    if durations.len() == 0 {
        0
    } else {
        total_of(durations.drop_last()) + durations.last() as nat
    }
}

/// The durations of all runs so far, kept as their number and their sum.
/// Durations are in microseconds.
#[derive(Clone, Copy, Debug)]
pub struct RunningStats {
    attempt_count: u64,
    total_micros: u128,
}

impl RunningStats {
    /// No duration is longer than the type holds, so their sum is bounded
    /// by their number.
    #[verifier::type_invariant]
    spec fn well_formed(self) -> bool {
        self.total_micros <= self.attempt_count * u64::MAX
    }

    /// The number of runs that were recorded.
    pub closed spec fn count(self) -> nat {
        self.attempt_count as nat
    }

    /// The sum of their durations.
    pub closed spec fn total(self) -> nat {
        self.total_micros as nat
    }

    /// The mean duration, rounded down; before the first run, the seed value.
    pub open spec fn mean(self) -> nat {
        if self.count() == 0 {
            SEED_MEAN_MICROS as nat
        } else {
            self.total() / self.count()
        }
    }

    /// These are the statistics of runs with exactly these durations.
    pub open spec fn tracks(self, durations: Seq<u64>) -> bool {
        self.count() == durations.len() && self.total() == total_of(durations)
    }

    /// The statistics before any run.
    pub fn new() -> (stats: RunningStats)
        ensures
            stats.count() == 0,
            stats.total() == 0,
            stats.tracks(Seq::<u64>::empty()),
    {
        RunningStats { attempt_count: 0, total_micros: 0 }
    }

    /// The number of runs that were recorded.
    pub fn attempt_count(&self) -> (count: u64)
        ensures
            count == self.count(),
    {
        self.attempt_count
    }

    /// The sum of the recorded durations, in microseconds.
    pub fn total_micros(&self) -> (total: u128)
        ensures
            total == self.total(),
    {
        self.total_micros
    }

    /// The mean duration in microseconds, rounded down.
    pub fn mean_duration(&self) -> (mean: u64)
        ensures
            mean == self.mean(),
    {
        proof {
            use_type_invariant(self);
        }
        if self.attempt_count == 0 {
            SEED_MEAN_MICROS
        } else {
            let count: u128 = self.attempt_count as u128;
            let total: u128 = self.total_micros;
            assert(total / count <= u64::MAX) by (nonlinear_arith)
                requires
                    count > 0,
                    total <= count * u64::MAX,
            ;
            (total / count) as u64
        }
    }

    /// The statistics with one more run, of the given duration.
    pub fn record(self, duration_micros: u64) -> (updated: RunningStats)
        requires
            self.count() < u64::MAX,
        ensures
            updated.count() == self.count() + 1,
            updated.total() == self.total() + duration_micros,
    {
        proof {
            use_type_invariant(self);
        }
        let count: u64 = self.attempt_count;
        assert((count + 1) * u64::MAX == count * u64::MAX + u64::MAX) by (nonlinear_arith);
        assert(count * u64::MAX + u64::MAX <= u128::MAX) by (nonlinear_arith)
            requires
                count < u64::MAX,
        ;
        RunningStats {
            attempt_count: count + 1,
            total_micros: self.total_micros + duration_micros as u128,
        }
    }
}

/// The settings of the detector.
#[derive(Clone, Copy, Debug, PartialEq, Eq, Structural)]
pub struct AnomalyDetector {
    /// No run is flagged until more runs than this were recorded.
    pub warmup_attempts: u64,
    /// A run is flagged when it lasts longer than the mean times this.
    pub multiplier: u64,
}

impl AnomalyDetector {
    /// A detector with the given settings.
    pub fn new(warmup_attempts: u64, multiplier: u64) -> (detector: AnomalyDetector)
        ensures
            detector.warmup_attempts == warmup_attempts,
            detector.multiplier == multiplier,
    {
        AnomalyDetector { warmup_attempts, multiplier }
    }

    /// Whether a run of the given duration is flagged, when it is run
    /// number `attempt` (counted from one) and the runs before it have the
    /// mean `mean`.
    pub open spec fn flags(self, duration: nat, attempt: nat, mean: nat) -> bool {
        attempt > self.warmup_attempts && duration > mean * self.multiplier
    }

    /// Says whether a run is a denial of service, and records it.
    ///
    /// The run is held against the mean of the runs before it: before the
    /// first run that is the seed value. Whether or not it is flagged, the
    /// run then enters the mean, for the runs that follow.
    pub fn observe(&self, duration_micros: u64, stats: RunningStats) -> (verdict: (bool, RunningStats))
        requires
            stats.count() < u64::MAX,
        ensures
            verdict.0 == self.flags(duration_micros as nat, stats.count() + 1, stats.mean()),
            verdict.1.count() == stats.count() + 1,
            verdict.1.total() == stats.total() + duration_micros,
    {
        let mean: u64 = stats.mean_duration();
        assert(mean * self.multiplier <= u128::MAX) by (nonlinear_arith)
            requires
                mean <= u64::MAX,
                self.multiplier <= u64::MAX,
        ;
        let threshold: u128 = (mean as u128) * (self.multiplier as u128);
        let attempt: u64 = stats.attempt_count() + 1;
        let is_dos: bool = attempt > self.warmup_attempts && (duration_micros as u128) > threshold;
        (is_dos, stats.record(duration_micros))
    }
}

impl Default for AnomalyDetector {
    /// The detector that waits for `DEFAULT_WARMUP` runs and flags at
    /// `DEFAULT_MULTIPLIER` times the mean.
    fn default() -> (detector: AnomalyDetector)
        ensures
            detector.warmup_attempts == DEFAULT_WARMUP,
            detector.multiplier == DEFAULT_MULTIPLIER,
    {
        AnomalyDetector { warmup_attempts: DEFAULT_WARMUP, multiplier: DEFAULT_MULTIPLIER }
    }
}

/// Law: recording a run turns the statistics of some runs into those of
/// the same runs and the new one.
pub proof fn lemma_record_tracks(before: RunningStats, after: RunningStats, durations: Seq<u64>, duration: u64)
    requires
        before.tracks(durations),
        after.count() == before.count() + 1,
        after.total() == before.total() + duration,
    ensures
        after.tracks(durations.push(duration)),
{
    assert(durations.push(duration).drop_last() =~= durations);
}

/// Law: once a run was recorded, the mean is the sum of the recorded
/// durations divided by their number, rounded down. Nothing else enters it:
/// not the detector's settings, and not which runs were flagged.
pub proof fn lemma_mean_is_arithmetic(stats: RunningStats, durations: Seq<u64>)
    requires
        stats.tracks(durations),
        durations.len() > 0,
    ensures
        stats.mean() == total_of(durations) / durations.len(),
{
}

} // verus!
