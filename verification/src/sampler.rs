//! The sampling cycle.
//!
//! The load of a core is the difference between two refreshes of the
//! operating system's counters. A cycle therefore refreshes once to prime
//! them, lets a settle interval pass, refreshes again and only then reads.
//! The caller does the refreshing and the waiting; the sampler says what is
//! due and turns the counters into a snapshot.

use vstd::prelude::*;
use crate::snapshot::{Measurement, MonitorError, SystemSnapshot};

verus! {

/// Milliseconds between the two refreshes of a cycle.
pub const SETTLE_MILLIS: u64 = 200;

/// Seconds between two cycles of the polling loop.
pub const POLL_SECONDS: u64 = 2;

/// What the sampler waits for.
#[derive(Clone, Copy, Debug, PartialEq, Eq, Structural)]
pub enum Phase {
    /// The first refresh, which primes the counters.
    Priming,
    /// The end of the settle interval.
    Settling,
    /// The second refresh and the reading of the counters.
    Measuring,
    /// Nothing: the cycle is over.
    Done,
}

/// What the caller reports back.
#[derive(Debug, PartialEq, Eq)]
pub enum Signal {
    /// The handle was locked, made if it was not there yet, and its
    /// processor and memory counters were refreshed.
    Refreshed,
    /// The settle interval has passed.
    Settled,
    /// The processor counters were refreshed again and the counters read.
    Measured(Measurement),
    /// The handle could not be locked or made.
    Failed(String),
}

/// What the caller does next.
#[derive(Debug, PartialEq, Eq)]
pub enum Command {
    /// Lock the handle, make it if need be, refresh the processor and
    /// memory counters, unlock.
    Prime,
    /// Wait this many milliseconds.
    Settle(u64),
    /// Lock the handle, refresh the processor counters, read the load of the
    /// cores and the memory counts, unlock, and read the uptime.
    Measure,
    /// The cycle is over and this is its snapshot.
    Report(SystemSnapshot),
    /// The cycle is over and has failed.
    Abort(MonitorError),
}

/// How a cycle ended.
#[derive(Debug, PartialEq, Eq)]
pub enum Outcome {
    /// With a snapshot.
    Snapshot(SystemSnapshot),
    /// With an error and no snapshot.
    Failure(MonitorError),
}

/// The state of a cycle: the phase and, once it is over, how it ended.
pub struct Cycle {
    pub phase: Phase,
    pub outcome: Option<Outcome>,
}

impl Cycle {
    /// A cycle that has not begun.
    pub open spec fn start() -> Cycle {
        Cycle { phase: Phase::Priming, outcome: None }
    }

    /// A cycle is over exactly when it has an outcome.
    pub open spec fn consistent(self) -> bool {
        self.phase == Phase::Done <==> self.outcome is Some
    }

    /// What the caller does next.
    pub open spec fn command(self) -> Command {
        match self.outcome {
            Some(Outcome::Snapshot(snapshot)) => Command::Report(snapshot),
            Some(Outcome::Failure(error)) => Command::Abort(error),
            None => match self.phase {
                Phase::Priming => Command::Prime,
                Phase::Settling => Command::Settle(SETTLE_MILLIS),
                _ => Command::Measure,
            },
        }
    }

    /// The cycle after a signal. A failure ends a running cycle at once. A
    /// signal that the phase does not wait for changes nothing, and nothing
    /// changes a cycle that is over.
    pub open spec fn advance(self, signal: Signal) -> Cycle {
        match (self.phase, signal) {
            (Phase::Done, _) => self,
            (_, Signal::Failed(reason)) => Cycle {
                phase: Phase::Done,
                outcome: Some(Outcome::Failure(MonitorError::Unavailable(reason))),
            },
            (Phase::Priming, Signal::Refreshed) => Cycle { phase: Phase::Settling, outcome: None },
            (Phase::Settling, Signal::Settled) => Cycle { phase: Phase::Measuring, outcome: None },
            (Phase::Measuring, Signal::Measured(measurement)) => Cycle {
                phase: Phase::Done,
                outcome: Some(Outcome::Snapshot(SystemSnapshot::of(measurement))),
            },
            _ => self,
        }
    }
}

/// Sequences one sampling cycle.
pub struct Sampler {
    phase: Phase,
    outcome: Option<Outcome>,
}

impl View for Sampler {
    type V = Cycle;

    closed spec fn view(&self) -> Cycle {
        Cycle { phase: self.phase, outcome: self.outcome }
    }
}

impl Sampler {
    #[verifier::type_invariant]
    spec fn consistent(self) -> bool {
        self.phase == Phase::Done <==> self.outcome is Some
    }

    /// A sampler at the start of a cycle.
    pub fn new() -> (sampler: Sampler)
        ensures
            sampler@ == Cycle::start(),
    {
        Sampler { phase: Phase::Priming, outcome: None }
    }

    /// The phase of the cycle.
    pub fn phase(&self) -> (phase: Phase)
        ensures
            phase == self@.phase,
    {
        self.phase
    }

    /// What to do next, or how the cycle ended.
    pub fn command(&self) -> (command: Command)
        ensures
            command == self@.command(),
            self@.consistent(),
    {
        proof {
            use_type_invariant(self);
        }
        match &self.outcome {
            Some(Outcome::Snapshot(snapshot)) => Command::Report(*snapshot),
            Some(Outcome::Failure(MonitorError::Unavailable(reason))) => Command::Abort(
                MonitorError::Unavailable(reason.clone()),
            ),
            None => match self.phase {
                Phase::Priming => Command::Prime,
                Phase::Settling => Command::Settle(SETTLE_MILLIS),
                _ => Command::Measure,
            },
        }
    }

    /// Takes in what the caller reports.
    pub fn record(&mut self, signal: Signal)
        ensures
            final(self)@ == old(self)@.advance(signal),
            final(self)@.consistent(),
    {
        proof {
            use_type_invariant(&*self);
        }
        match self.phase {
            Phase::Done => {},
            _ => match signal {
                Signal::Failed(reason) => {
                    *self = Sampler {
                        phase: Phase::Done,
                        outcome: Some(Outcome::Failure(MonitorError::Unavailable(reason))),
                    };
                },
                Signal::Refreshed => {
                    if self.phase == Phase::Priming {
                        self.phase = Phase::Settling;
                    }
                },
                Signal::Settled => {
                    if self.phase == Phase::Settling {
                        self.phase = Phase::Measuring;
                    }
                },
                Signal::Measured(measurement) => {
                    if self.phase == Phase::Measuring {
                        *self = Sampler {
                            phase: Phase::Done,
                            outcome: Some(
                                Outcome::Snapshot(SystemSnapshot::from_measurement(&measurement)),
                            ),
                        };
                    }
                },
            },
        }
    }
}

/// A cycle moves one phase at a time and in order: it settles only after a
/// refresh, measures only after settling, and gains a snapshot only from
/// the counters read in the measuring phase.
pub proof fn lemma_cycle_order(cycle: Cycle, signal: Signal)
    requires
        cycle.consistent(),
    ensures
        cycle.advance(signal).consistent(),
        cycle.advance(signal).phase == Phase::Settling && cycle.phase != Phase::Settling ==> cycle.phase
            == Phase::Priming && signal is Refreshed,
        cycle.advance(signal).phase == Phase::Measuring && cycle.phase != Phase::Measuring
            ==> cycle.phase == Phase::Settling && signal is Settled,
        cycle.advance(signal).phase == Phase::Priming ==> cycle.phase == Phase::Priming,
        cycle.phase != Phase::Done ==> (cycle.advance(signal).outcome matches Some(
            Outcome::Snapshot(snapshot),
        ) ==> cycle.phase == Phase::Measuring && (signal matches Signal::Measured(measurement)
            && snapshot == SystemSnapshot::of(measurement))),
        cycle.phase != Phase::Done ==> (cycle.advance(signal).outcome matches Some(
            Outcome::Failure(error),
        ) ==> (signal matches Signal::Failed(reason) && error == MonitorError::Unavailable(
            reason,
        ))),
        cycle.phase == Phase::Done ==> cycle.advance(signal) == cycle,
{
}

/// The cycle after the first `n` of the signals have come in.
pub open spec fn cycle_after(signals: Seq<Signal>, n: int) -> Cycle
    decreases n,
{
    if n <= 0 {
        Cycle::start()
    } else {
        cycle_after(signals, n - 1).advance(signals[n - 1])
    }
}

/// A refresh was reported among the first `n` signals.
pub open spec fn primed_within(signals: Seq<Signal>, n: int) -> bool {
    exists|i: int| 0 <= i < n && #[trigger] signals[i] is Refreshed
}

/// Among the first `n` signals a refresh was reported and, later, the end
/// of the settle interval.
pub open spec fn settled_within(signals: Seq<Signal>, n: int) -> bool {
    exists|j: int| 0 <= j < n && #[trigger] signals[j] is Settled && primed_within(signals, j)
}

/// Among the first `n` signals a refresh was reported, later the end of the
/// settle interval, and later still the counters that give `snapshot`.
pub open spec fn measured_within(signals: Seq<Signal>, n: int, snapshot: SystemSnapshot) -> bool {
    exists|k: int|
        0 <= k < n && (#[trigger] signals[k] matches Signal::Measured(measurement) && snapshot
            == SystemSnapshot::of(measurement)) && settled_within(signals, k)
}

/// Whatever signals come in, a cycle reports a snapshot only of counters
/// that were read after a refresh and, after it, the settle interval: the
/// first refresh alone is never reported. A cycle that measures has settled
/// after a refresh, and one that settles has been refreshed.
pub proof fn lemma_cycle_trace(signals: Seq<Signal>, n: int)
    requires
        0 <= n <= signals.len(),
    ensures
        cycle_after(signals, n).consistent(),
        cycle_after(signals, n).phase == Phase::Settling ==> primed_within(signals, n),
        cycle_after(signals, n).phase == Phase::Measuring ==> settled_within(signals, n),
        cycle_after(signals, n).outcome matches Some(Outcome::Snapshot(snapshot))
            ==> measured_within(signals, n, snapshot),
    decreases n,
{
    if n > 0 {
        lemma_cycle_trace(signals, n - 1);
        let before = cycle_after(signals, n - 1);
        let signal = signals[n - 1];
        lemma_cycle_order(before, signal);
        let now = before.advance(signal);
        if primed_within(signals, n - 1) {
            let i = choose|i: int| 0 <= i < n - 1 && #[trigger] signals[i] is Refreshed;
            assert(0 <= i < n && signals[i] is Refreshed);
        }
        if settled_within(signals, n - 1) {
            let j = choose|j: int|
                0 <= j < n - 1 && #[trigger] signals[j] is Settled && primed_within(signals, j);
            assert(0 <= j < n && signals[j] is Settled && primed_within(signals, j));
        }
        if now.phase == Phase::Settling && before.phase != Phase::Settling {
            assert(signals[n - 1] is Refreshed);
        }
        if now.phase == Phase::Measuring && before.phase != Phase::Measuring {
            assert(signals[n - 1] is Settled && primed_within(signals, n - 1));
        }
        match now.outcome {
            Some(Outcome::Snapshot(snapshot)) => {
                if before.phase == Phase::Done {
                    let k = choose|k: int|
                        0 <= k < n - 1 && (#[trigger] signals[k] matches Signal::Measured(
                            measurement,
                        ) && snapshot == SystemSnapshot::of(measurement)) && settled_within(
                            signals,
                            k,
                        );
                    assert(0 <= k < n && (signals[k] matches Signal::Measured(measurement)
                        && snapshot == SystemSnapshot::of(measurement)) && settled_within(
                        signals,
                        k,
                    ));
                } else {
                    assert((signals[n - 1] matches Signal::Measured(measurement) && snapshot
                        == SystemSnapshot::of(measurement)) && settled_within(signals, n - 1));
                }
            },
            _ => {},
        }
    }
}

} // verus!
