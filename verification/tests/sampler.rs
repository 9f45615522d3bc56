use hardware_monitor::sampler::{Command, Phase, Sampler, Signal, POLL_SECONDS, SETTLE_MILLIS};
use hardware_monitor::snapshot::{
    ExtendedSnapshot, LoadAverage, Measurement, MonitorError, SystemSnapshot,
};
use hardware_monitor::resolver::{Probe, Reading};

fn measurement() -> Measurement {
    Measurement {
        cores: vec![10_000, 30_000],
        total_memory: 8_000_000_000,
        used_memory: 4_000_000_000,
        uptime: 3_600,
    }
}

#[test]
fn intervals_of_the_cycle() {
    assert_eq!(SETTLE_MILLIS, 200);
    assert_eq!(POLL_SECONDS, 2);
}

#[test]
fn snapshot_is_derived_from_the_counters() {
    let snapshot = SystemSnapshot::from_measurement(&measurement());
    assert_eq!(
        snapshot,
        SystemSnapshot {
            cpu_usage: 20_000,
            memory_usage: 50_000,
            total_memory: 8_000_000_000,
            used_memory: 4_000_000_000,
            uptime: 3_600,
        }
    );
}

#[test]
fn snapshot_without_cores_and_memory_is_zero() {
    let empty = Measurement { cores: Vec::new(), total_memory: 0, used_memory: 0, uptime: 0 };
    let snapshot = SystemSnapshot::from_measurement(&empty);
    assert_eq!(snapshot.cpu_usage, 0);
    assert_eq!(snapshot.memory_usage, 0);
    assert_eq!(snapshot.cpu_usage as f32 / 1000.0, 0.0);
}

#[test]
fn a_cycle_primes_settles_and_measures() {
    let mut sampler = Sampler::new();
    assert_eq!(sampler.phase(), Phase::Priming);
    assert_eq!(sampler.command(), Command::Prime);
    sampler.record(Signal::Refreshed);
    assert_eq!(sampler.phase(), Phase::Settling);
    assert_eq!(sampler.command(), Command::Settle(200));
    sampler.record(Signal::Settled);
    assert_eq!(sampler.phase(), Phase::Measuring);
    assert_eq!(sampler.command(), Command::Measure);
    sampler.record(Signal::Measured(measurement()));
    assert_eq!(sampler.phase(), Phase::Done);
    assert_eq!(
        sampler.command(),
        Command::Report(SystemSnapshot::from_measurement(&measurement()))
    );
}

#[test]
fn counters_read_too_early_are_not_reported() {
    let mut sampler = Sampler::new();
    sampler.record(Signal::Measured(measurement()));
    assert_eq!(sampler.command(), Command::Prime);
    sampler.record(Signal::Settled);
    assert_eq!(sampler.command(), Command::Prime);
    sampler.record(Signal::Refreshed);
    sampler.record(Signal::Measured(measurement()));
    assert_eq!(sampler.command(), Command::Settle(200));
    sampler.record(Signal::Refreshed);
    assert_eq!(sampler.command(), Command::Settle(200));
    sampler.record(Signal::Settled);
    sampler.record(Signal::Settled);
    sampler.record(Signal::Refreshed);
    assert_eq!(sampler.command(), Command::Measure);
}

#[test]
fn a_failure_ends_the_cycle_in_any_phase() {
    let signals: [Vec<Signal>; 3] =
        [Vec::new(), vec![Signal::Refreshed], vec![Signal::Refreshed, Signal::Settled]];
    for before in signals {
        let mut sampler = Sampler::new();
        for signal in before {
            sampler.record(signal);
        }
        sampler.record(Signal::Failed("poisoned lock".to_string()));
        assert_eq!(sampler.phase(), Phase::Done);
        assert_eq!(
            sampler.command(),
            Command::Abort(MonitorError::Unavailable("poisoned lock".to_string()))
        );
    }
}

#[test]
fn a_finished_cycle_does_not_change() {
    let mut sampler = Sampler::new();
    sampler.record(Signal::Refreshed);
    sampler.record(Signal::Settled);
    sampler.record(Signal::Measured(measurement()));
    let report = sampler.command();
    sampler.record(Signal::Failed("late".to_string()));
    sampler.record(Signal::Refreshed);
    sampler.record(Signal::Measured(Measurement {
        cores: vec![1],
        total_memory: 1,
        used_memory: 1,
        uptime: 1,
    }));
    assert_eq!(sampler.command(), report);

    let mut failed = Sampler::new();
    failed.record(Signal::Failed("first".to_string()));
    failed.record(Signal::Failed("second".to_string()));
    failed.record(Signal::Refreshed);
    assert_eq!(failed.command(), Command::Abort(MonitorError::Unavailable("first".to_string())));
}

#[test]
fn error_message_is_carried_word_for_word() {
    let error = MonitorError::Unavailable("Failed to initialize system".to_string());
    assert_eq!(error.message(), "Failed to initialize system");
    assert_eq!(MonitorError::Unavailable(String::new()).message(), "");
}

#[test]
fn extended_snapshot_keeps_every_part() {
    let basic = SystemSnapshot::from_measurement(&measurement());
    let reading = Reading { celsius: 48_500_000, source: Probe::LoadEstimate };
    let load = LoadAverage { one: 1_250, five: 900, fifteen: 410 };
    let extended = ExtendedSnapshot::compose(
        basic,
        Some(reading),
        Some(load),
        Some("2024-05-01 08:00:00 UTC".to_string()),
    );
    assert_eq!(extended.cpu_usage, basic.cpu_usage);
    assert_eq!(extended.memory_usage, basic.memory_usage);
    assert_eq!(extended.total_memory, basic.total_memory);
    assert_eq!(extended.used_memory, basic.used_memory);
    assert_eq!(extended.uptime, basic.uptime);
    assert_eq!(extended.cpu_temperature, Some(reading));
    assert_eq!(extended.load_average, Some(load));
    assert_eq!(extended.boot_time, Some("2024-05-01 08:00:00 UTC".to_string()));
}

#[test]
fn extended_snapshot_parts_may_be_missing() {
    let basic = SystemSnapshot::from_measurement(&measurement());
    let extended = ExtendedSnapshot::compose(basic, None, None, None);
    assert_eq!(extended.cpu_temperature, None);
    assert_eq!(extended.load_average, None);
    assert_eq!(extended.boot_time, None);
    assert_eq!(extended.uptime, 3_600);
}
