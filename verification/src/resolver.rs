//! The processor's temperature from an ordered chain of probes.
//!
//! The caller runs the probes; the library says which one is due, judges
//! what comes back, and stops at the first probe whose evidence yields a
//! plausible temperature. The result names the probe that gave it, so that
//! an estimate from load is never taken for a measurement.

use vstd::prelude::*;
use crate::decimal::{first_reading, first_reading_in};
use crate::thermal::{
    accept_reading,
    component_average,
    component_mean,
    estimate_from_cores,
    estimate_of,
    first_raw_plausible,
    first_raw_reading,
    lemma_first_plausible,
    plausible,
    raw_readings,
    RawScale,
    ThermalComponent,
};

verus! {

/// A way of learning the processor's temperature.
#[derive(Clone, Copy, Debug, PartialEq, Eq, Structural)]
pub enum Probe {
    /// The temperature accessor of the statistics interface.
    DirectSensor,
    /// The list of thermal components.
    Components,
    /// A management query for the thermal zones, which answer in tenths of a
    /// kelvin.
    ManagementZones,
    /// A management query for the temperature probes, which answer in
    /// tenths of a degree.
    ManagementProbes,
    /// A shell command that prints the thermal zones in degrees.
    ShellZones,
    /// A shell command that prints the temperature probes in degrees.
    ShellProbes,
    /// A shell command that prints the processor sensors of a hardware
    /// monitoring service in degrees.
    ShellMonitor,
    /// No sensor at all: a guess from the load of the cores.
    LoadEstimate,
}

/// What running a probe brought back.
#[derive(Debug, PartialEq, Eq)]
pub enum Evidence {
    /// The probe failed, or the platform does not have it.
    Missing,
    /// One temperature.
    Sensor(i64),
    /// The thermal components with their labels and readings.
    Components(Vec<ThermalComponent>),
    /// Raw firmware values, in the order of the answer.
    Raw(Vec<u32>),
    /// The text that a command printed.
    Output(String),
    /// The load of each core, in thousandths of a percent.
    Load(Vec<u32>),
}

/// A temperature and the probe that gave it.
#[derive(Clone, Copy, Debug, PartialEq, Eq, Structural)]
pub struct Reading {
    /// Millionths of a degree Celsius.
    pub celsius: i64,
    /// Where it comes from.
    pub source: Probe,
}

/// The temperature that a probe's evidence yields. Evidence of a shape that
/// the probe does not produce yields nothing.
pub open spec fn verdict_of(probe: Probe, evidence: Evidence) -> Option<i64> {
    match (probe, evidence) {
        (Probe::DirectSensor, Evidence::Sensor(t)) => if plausible(t as int) {
            Some(t)
        } else {
            None
        },
        (Probe::Components, Evidence::Components(list)) => component_mean(list@),
        (Probe::ManagementZones, Evidence::Raw(raw)) => first_raw_plausible(
            RawScale::DeciKelvin,
            raw@,
        ),
        (Probe::ManagementProbes, Evidence::Raw(raw)) => first_raw_plausible(
            RawScale::DeciCelsius,
            raw@,
        ),
        (Probe::ShellZones, Evidence::Output(text)) => first_reading_in(text@),
        (Probe::ShellProbes, Evidence::Output(text)) => first_reading_in(text@),
        (Probe::ShellMonitor, Evidence::Output(text)) => first_reading_in(text@),
        (Probe::LoadEstimate, Evidence::Load(cores)) => estimate_of(cores@),
        _ => None,
    }
}

/// The chain for a plain temperature request. The probes of the management
/// interface and of the shell are in it only where the platform has them.
pub open spec fn standard_probes(platform_probes: bool) -> Seq<Probe> {
    if platform_probes {
        seq![
            Probe::DirectSensor,
            Probe::Components,
            Probe::ManagementZones,
            Probe::ManagementProbes,
            Probe::ShellZones,
            Probe::ShellProbes,
            Probe::ShellMonitor,
            Probe::LoadEstimate,
        ]
    } else {
        seq![Probe::DirectSensor, Probe::Components, Probe::LoadEstimate]
    }
}

/// The chain for an extended snapshot: the direct sensor first, then the
/// whole standard chain.
pub open spec fn extended_probes(platform_probes: bool) -> Seq<Probe> {
    seq![Probe::DirectSensor] + standard_probes(platform_probes)
}

/// The result of a chain from its `from`-th probe on, each probe paired with
/// the evidence at the same place: the first verdict that there is.
pub open spec fn resolution_from(chain: Seq<Probe>, evidence: Seq<Evidence>, from: int) -> Option<
    Reading,
>
    decreases chain.len() - from,
{
    if from < 0 || from >= chain.len() || from >= evidence.len() {
        None
    } else {
        match verdict_of(chain[from], evidence[from]) {
            Some(t) => Some(Reading { celsius: t, source: chain[from] }),
            None => resolution_from(chain, evidence, from + 1),
        }
    }
}

/// The result of a chain of probes with their evidence.
pub open spec fn resolution(chain: Seq<Probe>, evidence: Seq<Evidence>) -> Option<Reading> {
    resolution_from(chain, evidence, 0)
}

/// Judges the evidence of one probe.
pub fn interpret(probe: Probe, evidence: &Evidence) -> (verdict: Option<i64>)
    ensures
        verdict == verdict_of(probe, *evidence),
        verdict is Some ==> plausible(verdict.unwrap() as int),
{
    match evidence {
        Evidence::Missing => None,
        Evidence::Sensor(t) => match probe {
            Probe::DirectSensor => accept_reading(*t),
            _ => None,
        },
        Evidence::Components(list) => match probe {
            Probe::Components => component_average(list),
            _ => None,
        },
        Evidence::Raw(raw) => match probe {
            Probe::ManagementZones => first_raw_reading(RawScale::DeciKelvin, raw),
            Probe::ManagementProbes => first_raw_reading(RawScale::DeciCelsius, raw),
            _ => None,
        },
        Evidence::Output(text) => match probe {
            Probe::ShellZones | Probe::ShellProbes | Probe::ShellMonitor => first_reading(
                text.as_str(),
            ),
            _ => None,
        },
        Evidence::Load(cores) => match probe {
            Probe::LoadEstimate => estimate_from_cores(cores),
            _ => None,
        },
    }
}

/// The chain for a plain temperature request.
pub fn standard_chain(platform_probes: bool) -> (chain: Vec<Probe>)
    ensures
        chain@ == standard_probes(platform_probes),
{
    let mut chain: Vec<Probe> = Vec::new();
    chain.push(Probe::DirectSensor);
    chain.push(Probe::Components);
    if platform_probes {
        chain.push(Probe::ManagementZones);
        chain.push(Probe::ManagementProbes);
        chain.push(Probe::ShellZones);
        chain.push(Probe::ShellProbes);
        chain.push(Probe::ShellMonitor);
    }
    chain.push(Probe::LoadEstimate);
    assert(chain@ =~= standard_probes(platform_probes));
    chain
}

/// The chain for an extended snapshot.
pub fn extended_chain(platform_probes: bool) -> (chain: Vec<Probe>)
    ensures
        chain@ == extended_probes(platform_probes),
{
    let mut chain: Vec<Probe> = Vec::new();
    chain.push(Probe::DirectSensor);
    let mut rest = standard_chain(platform_probes);
    chain.append(&mut rest);
    assert(chain@ =~= extended_probes(platform_probes));
    chain
}

/// Resolves a chain whose evidence is all at hand: the first probe whose
/// evidence yields a temperature gives the result. A probe without evidence
/// ends the chain.
pub fn resolve(chain: &Vec<Probe>, evidence: &Vec<Evidence>) -> (reading: Option<Reading>)
    ensures
        reading == resolution(chain@, evidence@),
        reading is Some ==> plausible(reading.unwrap().celsius as int),
{
    let n: usize = if chain.len() < evidence.len() {
        chain.len()
    } else {
        evidence.len()
    };
    let mut i: usize = 0;
    while i < n
        invariant
            i <= n,
            n <= chain@.len(),
            n <= evidence@.len(),
            n == chain@.len() || n == evidence@.len(),
            resolution(chain@, evidence@) == resolution_from(chain@, evidence@, i as int),
        decreases n - i,
    {
        match interpret(chain[i], &evidence[i]) {
            Some(t) => {
                return Some(Reading { celsius: t, source: chain[i] });
            },
            None => {},
        }
        i = i + 1;
    }
    None
}

/// How far a resolver has come: its chain, the place of the probe that is
/// due, and the reading once there is one.
pub struct Progress {
    pub chain: Seq<Probe>,
    pub position: nat,
    pub outcome: Option<Reading>,
}

/// What the caller of a resolver does next.
#[derive(Clone, Copy, Debug, PartialEq, Eq, Structural)]
pub enum Step {
    /// Run this probe and record what it brings back.
    Run(Probe),
    /// Nothing is left to do: this is the result.
    Finished(Option<Reading>),
}

impl Progress {
    /// Where a resolver starts.
    pub open spec fn start(chain: Seq<Probe>) -> Progress {
        Progress { chain, position: 0, outcome: None }
    }

    /// A probe is due: there is no reading yet, and the chain has not run
    /// out.
    pub open spec fn pending(self) -> bool {
        self.outcome is None && self.position < self.chain.len()
    }

    /// What the caller does next.
    pub open spec fn step(self) -> Step {
        if self.pending() {
            Step::Run(self.chain[self.position as int])
        } else {
            Step::Finished(self.outcome)
        }
    }

    /// The progress after the evidence of the due probe has come in: the
    /// reading, if the evidence yields one, else the next probe is due.
    /// Where no probe is due, nothing changes.
    pub open spec fn advance(self, evidence: Evidence) -> Progress {
        if !self.pending() {
            self
        } else {
            let probe = self.chain[self.position as int];
            match verdict_of(probe, evidence) {
                Some(t) => Progress {
                    outcome: Some(Reading { celsius: t, source: probe }),
                    ..self
                },
                None => Progress { position: self.position + 1, ..self },
            }
        }
    }

    /// The progress after each piece of evidence has come in, in order.
    pub open spec fn run(self, evidence: Seq<Evidence>) -> Progress
        decreases evidence.len(),
    {
        if evidence.len() == 0 {
            self
        } else {
            self.advance(evidence[0]).run(evidence.drop_first())
        }
    }
}

/// Walks a chain of probes one at a time, so that a probe is run only when
/// all before it have yielded nothing.
pub struct Resolver {
    chain: Vec<Probe>,
    position: usize,
    outcome: Option<Reading>,
}

impl View for Resolver {
    type V = Progress;

    closed spec fn view(&self) -> Progress {
        Progress {
            chain: self.chain@,
            position: self.position as nat,
            outcome: self.outcome,
        }
    }
}

impl Resolver {
    #[verifier::type_invariant]
    spec fn consistent(self) -> bool {
        &&& self.position <= self.chain@.len()
        &&& self.outcome is Some ==> plausible(self.outcome.unwrap().celsius as int)
    }

    /// A resolver at the start of `chain`.
    pub fn new(chain: Vec<Probe>) -> (resolver: Resolver)
        ensures
            resolver@ == Progress::start(chain@),
    {
        Resolver { chain, position: 0, outcome: None }
    }

    /// What to do next: run the probe that is due, or take the result.
    pub fn step(&self) -> (step: Step)
        ensures
            step == self@.step(),
            step matches Step::Finished(Some(r)) ==> plausible(r.celsius as int),
    {
        proof {
            use_type_invariant(self);
        }
        if self.outcome.is_none() && self.position < self.chain.len() {
            Step::Run(self.chain[self.position])
        } else {
            Step::Finished(self.outcome)
        }
    }

    /// Takes in what the due probe brought back.
    pub fn record(&mut self, evidence: &Evidence)
        ensures
            final(self)@ == old(self)@.advance(*evidence),
    {
        proof {
            use_type_invariant(&*self);
        }
        if self.outcome.is_none() && self.position < self.chain.len() {
            let probe: Probe = self.chain[self.position];
            match interpret(probe, evidence) {
                Some(t) => {
                    self.outcome = Some(Reading { celsius: t, source: probe });
                },
                None => {
                    self.position = self.position + 1;
                },
            }
        }
    }
}

/// Whatever a probe's evidence yields is plausible.
pub proof fn lemma_verdict_plausible(probe: Probe, evidence: Evidence)
    ensures
        verdict_of(probe, evidence) is Some ==> plausible(
            verdict_of(probe, evidence).unwrap() as int,
        ),
{
    match evidence {
        Evidence::Components(list) => {
            crate::thermal::lemma_component_mean_range(list@);
        },
        Evidence::Raw(raw) => {
            lemma_first_plausible(raw_readings(RawScale::DeciKelvin, raw@));
            lemma_first_plausible(raw_readings(RawScale::DeciCelsius, raw@));
        },
        Evidence::Output(text) => {
            crate::decimal::lemma_first_reading_plausible(text@);
        },
        _ => {},
    }
}

/// The result of a chain is plausible, it is the verdict on the evidence of
/// the probe that it names, and every probe before that one yielded
/// nothing. There is no result only where no probe with evidence yields one.
pub proof fn lemma_resolution_first(chain: Seq<Probe>, evidence: Seq<Evidence>, from: int)
    requires
        0 <= from,
    ensures
        match resolution_from(chain, evidence, from) {
            Some(r) => plausible(r.celsius as int) && exists|i: int|
                from <= i < chain.len() && i < evidence.len() && r.source == chain[i]
                    && #[trigger] verdict_of(chain[i], evidence[i]) == Some(r.celsius)
                    && forall|j: int|
                    from <= j < i ==> #[trigger] verdict_of(chain[j], evidence[j]) is None,
            None => forall|j: int|
                from <= j < chain.len() && j < evidence.len() ==> #[trigger] verdict_of(
                    chain[j],
                    evidence[j],
                ) is None,
        },
    decreases chain.len() - from,
{
    if from < chain.len() && from < evidence.len() {
        lemma_verdict_plausible(chain[from], evidence[from]);
        if verdict_of(chain[from], evidence[from]) is None {
            lemma_resolution_first(chain, evidence, from + 1);
        }
    }
}

/// Feeding a resolver the evidence of its probes one by one gives the
/// result of the chain, and with evidence for every probe the resolver ends
/// with no probe due.
pub proof fn lemma_run_resolves(progress: Progress, evidence: Seq<Evidence>, from: int)
    requires
        progress.outcome is None,
        progress.position == from,
        0 <= from <= evidence.len(),
    ensures
        progress.run(evidence.skip(from)).outcome == resolution_from(
            progress.chain,
            evidence,
            from,
        ),
        progress.run(evidence.skip(from)).chain == progress.chain,
        evidence.len() >= progress.chain.len() ==> !progress.run(evidence.skip(from)).pending(),
    decreases evidence.len() - from,
{
    let rest = evidence.skip(from);
    if rest.len() > 0 {
        assert(rest[0] == evidence[from]);
        assert(rest.drop_first() =~= evidence.skip(from + 1));
        let next = progress.advance(rest[0]);
        if next.outcome is None && progress.pending() {
            lemma_run_resolves(next, evidence, from + 1);
        } else {
            lemma_run_settled(next, evidence.skip(from + 1));
        }
    }
}

/// Once no probe is due, further evidence changes nothing.
pub proof fn lemma_run_settled(progress: Progress, evidence: Seq<Evidence>)
    requires
        !progress.pending(),
    ensures
        progress.run(evidence) == progress,
    decreases evidence.len(),
{
    if evidence.len() > 0 {
        lemma_run_settled(progress, evidence.drop_first());
    }
}

} // verus!
