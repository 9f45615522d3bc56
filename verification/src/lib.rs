//! Verified core of a hardware monitor.
//!
//! Every measurement crosses the library boundary as a fixed-point integer:
//! utilisation in thousandths of a percent, temperature in millionths of a
//! degree Celsius, memory in bytes. The library averages per-core load,
//! derives memory utilisation, judges and combines temperature evidence from
//! an ordered chain of probes, and sequences the two-refresh sampling cycle.
//! Reading the operating system is left to the caller.

pub mod decimal;
pub mod identity;
pub mod label;
pub mod resolver;
pub mod sampler;
pub mod snapshot;
pub mod thermal;
pub mod usage;
