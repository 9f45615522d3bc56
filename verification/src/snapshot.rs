//! The records that a poll produces.

use vstd::prelude::*;
use crate::resolver::Reading;
use crate::usage::{all_between, mean_of, mean_usage, memory_share, memory_usage, FULL_SCALE};

verus! {

/// Why a snapshot could not be taken.
#[derive(Debug, PartialEq, Eq)]
pub enum MonitorError {
    /// The handle on the operating system's counters could not be locked or
    /// made; the message says why.
    Unavailable(String),
}

impl MonitorError {
    /// The message that the error carries, word for word.
    pub fn message(&self) -> (text: String)
        ensures
            text@ == (match *self {
                MonitorError::Unavailable(reason) => reason@,
            }),
    {
        match self {
            MonitorError::Unavailable(reason) => reason.clone(),
        }
    }
}

/// The counters read after the second refresh of a sampling cycle.
#[derive(Debug, PartialEq, Eq)]
pub struct Measurement {
    /// The load of each core, in thousandths of a percent.
    pub cores: Vec<u32>,
    /// Bytes of memory installed.
    pub total_memory: u64,
    /// Bytes of memory in use.
    pub used_memory: u64,
    /// Seconds since the machine started.
    pub uptime: u64,
}

/// Load and memory at one sampling instant.
#[derive(Clone, Copy, Debug, PartialEq, Eq, Structural)]
pub struct SystemSnapshot {
    /// Mean load over the cores, in thousandths of a percent.
    pub cpu_usage: u32,
    /// Share of the memory in use, in thousandths of a percent.
    pub memory_usage: u128,
    /// Bytes of memory installed.
    pub total_memory: u64,
    /// Bytes of memory in use.
    pub used_memory: u64,
    /// Seconds since the machine started.
    pub uptime: u64,
}

impl SystemSnapshot {
    /// The memory share is the one that the two byte counts give.
    pub open spec fn consistent(self) -> bool {
        self.memory_usage == memory_share(self.used_memory, self.total_memory)
    }

    /// The snapshot that a measurement gives.
    pub open spec fn of(measurement: Measurement) -> SystemSnapshot {
        SystemSnapshot {
            cpu_usage: mean_of(measurement.cores@) as u32,
            memory_usage: memory_share(measurement.used_memory, measurement.total_memory) as u128,
            total_memory: measurement.total_memory,
            used_memory: measurement.used_memory,
            uptime: measurement.uptime,
        }
    }

    /// Derives the snapshot from the counters: the mean load over the cores,
    /// zero without cores, and the share of memory in use, zero without
    /// memory.
    pub fn from_measurement(measurement: &Measurement) -> (snapshot: SystemSnapshot)
        ensures
            snapshot == SystemSnapshot::of(*measurement),
            snapshot.consistent(),
            snapshot.cpu_usage == mean_of(measurement.cores@),
            all_between(measurement.cores@, 0, FULL_SCALE as int) ==> snapshot.cpu_usage <= FULL_SCALE,
            measurement.used_memory <= measurement.total_memory ==> snapshot.memory_usage
                <= FULL_SCALE,
    {
        SystemSnapshot {
            cpu_usage: mean_usage(&measurement.cores),
            memory_usage: memory_usage(measurement.used_memory, measurement.total_memory),
            total_memory: measurement.total_memory,
            used_memory: measurement.used_memory,
            uptime: measurement.uptime,
        }
    }
}

/// The load averages over one, five and fifteen minutes, in thousandths.
#[derive(Clone, Copy, Debug, PartialEq, Eq, Structural)]
pub struct LoadAverage {
    pub one: u32,
    pub five: u32,
    pub fifteen: u32,
}

/// A snapshot together with what the statistics interface adds to it. Each
/// of the three additions may be missing on its own.
#[derive(Debug, PartialEq, Eq)]
pub struct ExtendedSnapshot {
    /// Mean load over the cores, in thousandths of a percent.
    pub cpu_usage: u32,
    /// Share of the memory in use, in thousandths of a percent.
    pub memory_usage: u128,
    /// Bytes of memory installed.
    pub total_memory: u64,
    /// Bytes of memory in use.
    pub used_memory: u64,
    /// Seconds since the machine started.
    pub uptime: u64,
    /// The processor's temperature and where it comes from.
    pub cpu_temperature: Option<Reading>,
    /// The load averages, on platforms that keep them.
    pub load_average: Option<LoadAverage>,
    /// When the machine started, as the platform words it.
    pub boot_time: Option<String>,
}

impl ExtendedSnapshot {
    /// The plain snapshot inside the extended one.
    pub open spec fn basic(self) -> SystemSnapshot {
        SystemSnapshot {
            cpu_usage: self.cpu_usage,
            memory_usage: self.memory_usage,
            total_memory: self.total_memory,
            used_memory: self.used_memory,
            uptime: self.uptime,
        }
    }

    /// Puts a snapshot and the three additions together.
    pub fn compose(
        basic: SystemSnapshot,
        cpu_temperature: Option<Reading>,
        load_average: Option<LoadAverage>,
        boot_time: Option<String>,
    ) -> (extended: ExtendedSnapshot)
        ensures
            extended.basic() == basic,
            extended.cpu_temperature == cpu_temperature,
            extended.load_average == load_average,
            extended.boot_time == boot_time,
    {
        ExtendedSnapshot {
            cpu_usage: basic.cpu_usage,
            memory_usage: basic.memory_usage,
            total_memory: basic.total_memory,
            used_memory: basic.used_memory,
            uptime: basic.uptime,
            cpu_temperature,
            load_average,
            boot_time,
        }
    }
}

} // verus!
