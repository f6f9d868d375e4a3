//! Crashes: what a signal means, and the tallies of a run.

use crate::strategy::Strategy;
use vstd::prelude::*;

verus! {

/// The signal of a segmentation fault.
pub const SEG_SIG: i32 = 11;

/// The signal of a floating-point exception.
pub const FPE_SIG: i32 = 8;

/// What kind of crash a signal stands for.
#[derive(Clone, Copy, Debug, PartialEq, Eq, Structural)]
pub enum CrashKind {
    Segfault,
    FloatingPointException,
    /// Any other signal, with its number.
    Unknown(i32),
}

/// The kind of crash that a signal stands for.
pub open spec fn kind_of(signal: i32) -> CrashKind {
    if signal == SEG_SIG {
        CrashKind::Segfault
    } else if signal == FPE_SIG {
        CrashKind::FloatingPointException
    } else {
        CrashKind::Unknown(signal)
    }
}

/// Tells the kind of crash from the signal that ended a run.
pub fn classify(signal: i32) -> (kind: CrashKind)
    ensures
        kind == kind_of(signal),
{
    if signal == SEG_SIG {
        CrashKind::Segfault
    } else if signal == FPE_SIG {
        CrashKind::FloatingPointException
    } else {
        CrashKind::Unknown(signal)
    }
}

/// The tallies of a run. An attempt is an event when its run crashed, or
/// was a denial of service, or both; each event counts once for the
/// strategy that made the input.
#[derive(Clone, Copy, Debug, PartialEq, Eq, Structural)]
pub struct FuzzStats {
    pub total_crashes: u64,
    pub total_doses: u64,
    pub seg_faults: u64,
    pub floating_points: u64,
    pub bitflip_events: u64,
    pub insertion_events: u64,
    pub deletion_events: u64,
    pub magic_events: u64,
}

/// What one attempt adds to the tallies.
#[derive(Clone, Copy, Debug, PartialEq, Eq, Structural)]
pub struct AttemptEvents {
    /// The strategy that made the input.
    pub strategy: Strategy,
    /// Whether the run was a denial of service.
    pub dos: bool,
    /// The kind of crash, if the run ended by a signal.
    pub crash: Option<CrashKind>,
}

impl FuzzStats {
    /// The number of events of all strategies together.
    pub open spec fn events(self) -> nat {
        (self.bitflip_events + self.insertion_events + self.deletion_events + self.magic_events) as nat
    }

    /// The number of events that the tallies hold for a strategy.
    pub open spec fn events_of(self, strategy: Strategy) -> nat {
        match strategy {
            Strategy::BitFlip => self.bitflip_events as nat,
            Strategy::Insertion => self.insertion_events as nat,
            Strategy::Deletion => self.deletion_events as nat,
            Strategy::Magic => self.magic_events as nat,
        }
    }

    /// The tallies agree with each other: no kind of crash was counted
    /// without a crash, and an event is an attempt with a crash or a denial
    /// of service, or both.
    pub open spec fn consistent(self) -> bool {
        &&& self.seg_faults + self.floating_points <= self.total_crashes
        &&& self.total_crashes <= self.events()
        &&& self.total_doses <= self.events()
        &&& self.events() <= self.total_crashes + self.total_doses
    }

    /// The tallies with one attempt added.
    pub open spec fn with(self, attempt: AttemptEvents) -> FuzzStats {
        let crashed: int = if attempt.crash is Some {
            1
        } else {
            0
        };
        let slow: int = if attempt.dos {
            1
        } else {
            0
        };
        let event: int = if attempt.crash is Some || attempt.dos {
            1
        } else {
            0
        };
        let segfault: int = if attempt.crash == Some(CrashKind::Segfault) {
            1
        } else {
            0
        };
        let exception: int = if attempt.crash == Some(CrashKind::FloatingPointException) {
            1
        } else {
            0
        };
        FuzzStats {
            total_crashes: (self.total_crashes + crashed) as u64,
            total_doses: (self.total_doses + slow) as u64,
            seg_faults: (self.seg_faults + segfault) as u64,
            floating_points: (self.floating_points + exception) as u64,
            bitflip_events: (self.bitflip_events + if attempt.strategy == Strategy::BitFlip {
                event
            } else {
                0
            }) as u64,
            insertion_events: (self.insertion_events + if attempt.strategy == Strategy::Insertion {
                event
            } else {
                0
            }) as u64,
            deletion_events: (self.deletion_events + if attempt.strategy == Strategy::Deletion {
                event
            } else {
                0
            }) as u64,
            magic_events: (self.magic_events + if attempt.strategy == Strategy::Magic {
                event
            } else {
                0
            }) as u64,
        }
    }

    /// The tallies before the first attempt: nothing was counted.
    pub open spec fn new_tallies() -> FuzzStats {
        FuzzStats {
            total_crashes: 0,
            total_doses: 0,
            seg_faults: 0,
            floating_points: 0,
            bitflip_events: 0,
            insertion_events: 0,
            deletion_events: 0,
            magic_events: 0,
        }
    }

    /// The tallies before the first attempt.
    pub fn new() -> (stats: FuzzStats)
        ensures
            stats == FuzzStats::new_tallies(),
            stats.consistent(),
    {
        FuzzStats {
            total_crashes: 0,
            total_doses: 0,
            seg_faults: 0,
            floating_points: 0,
            bitflip_events: 0,
            insertion_events: 0,
            deletion_events: 0,
            magic_events: 0,
        }
    }

    /// The number of crashes and denials of service together.
    pub fn total_hits(&self) -> (hits: u128)
        ensures
            hits == self.total_crashes + self.total_doses,
    {
        self.total_crashes as u128 + self.total_doses as u128
    }

    /// Adds one attempt to the tallies.
    pub fn record(&mut self, attempt: AttemptEvents)
        requires
            old(self).consistent(),
            old(self).events() < u64::MAX,
        ensures
            *final(self) == old(self).with(attempt),
            final(self).consistent(),
            final(self).events() <= old(self).events() + 1,
    {
        let event: bool = attempt.dos || attempt.crash.is_some();
        if attempt.dos {
            self.total_doses = self.total_doses + 1;
        }
        match attempt.crash {
            Some(CrashKind::Segfault) => {
                self.seg_faults = self.seg_faults + 1;
                self.total_crashes = self.total_crashes + 1;
            },
            Some(CrashKind::FloatingPointException) => {
                self.floating_points = self.floating_points + 1;
                self.total_crashes = self.total_crashes + 1;
            },
            Some(CrashKind::Unknown(_)) => {
                self.total_crashes = self.total_crashes + 1;
            },
            None => {},
        }
        if event {
            match attempt.strategy {
                Strategy::BitFlip => {
                    self.bitflip_events = self.bitflip_events + 1;
                },
                Strategy::Insertion => {
                    self.insertion_events = self.insertion_events + 1;
                },
                Strategy::Deletion => {
                    self.deletion_events = self.deletion_events + 1;
                },
                Strategy::Magic => {
                    self.magic_events = self.magic_events + 1;
                },
            }
        }
    }
}

/// Law: a run that ended by a signal counts as one crash, and as one
/// event of the strategy that made its input. Signal 11 adds one to the
/// segmentation faults and signal 8 one to the floating-point exceptions;
/// any other signal adds to neither.
pub proof fn lemma_signal_tallies(stats: FuzzStats, strategy: Strategy, dos: bool, signal: i32)
    requires
        stats.consistent(),
        stats.events() < u64::MAX,
    ensures
        ({
            let after = stats.with(AttemptEvents { strategy, dos, crash: Some(kind_of(signal)) });
            &&& after.total_crashes == stats.total_crashes + 1
            &&& after.events_of(strategy) == stats.events_of(strategy) + 1
            &&& after.events() == stats.events() + 1
            &&& after.seg_faults == stats.seg_faults + if signal == SEG_SIG {
                1int
            } else {
                0int
            }
            &&& after.floating_points == stats.floating_points + if signal == FPE_SIG {
                1int
            } else {
                0int
            }
        }),
{
}

} // verus!
