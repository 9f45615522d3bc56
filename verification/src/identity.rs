//! What the machine is: processor, memory and operating system.

use vstd::prelude::*;
use vstd::string::StringExecFns;
use crate::usage::{milli_gibibytes, GIBIBYTE};

verus! {

/// `sysinfo::System`, the handle on the operating system's counters. The
/// library looks at nothing inside it.
#[verifier::external_type_specification]
#[verifier::external_body]
pub struct ExSystem(sysinfo::System);

/// The static description of the machine.
#[derive(Debug, PartialEq, Eq)]
pub struct HardwareIdentity {
    /// The brand of the first core, which stands for the processor.
    pub cpu_model: String,
    /// How many cores there are.
    pub cpu_core_count: usize,
    /// The architecture that the program was built for.
    pub architecture: String,
    /// Memory installed, in thousandths of a gibibyte.
    pub total_memory_gb: u64,
    /// The name of the operating system.
    pub os_name: String,
    /// Its version.
    pub os_version: String,
    /// The name of the machine on the network.
    pub hostname: String,
}

/// The text, or the stand-in where the operating system gave none.
pub open spec fn text_or(text: Option<String>, stand_in: Seq<char>) -> Seq<char> {
    match text {
        Some(t) => t@,
        None => stand_in,
    }
}

/// The brand that stands for the processor: that of the first core.
pub open spec fn model_of(brands: Seq<String>) -> Seq<char> {
    if brands.len() > 0 {
        brands[0]@
    } else {
        "Unknown CPU"@
    }
}

/// The description is the one that these reports give: the first brand, or
/// `Unknown CPU` without cores, the count of the cores, the memory in
/// thousandths of a gibibyte, and each name or its stand-in.
pub open spec fn describes(
    identity: HardwareIdentity,
    brands: Seq<String>,
    architecture: String,
    total_memory: u64,
    os_name: Option<String>,
    os_version: Option<String>,
    hostname: Option<String>,
) -> bool {
    &&& identity.cpu_model@ == model_of(brands)
    &&& identity.cpu_core_count == brands.len()
    &&& identity.architecture == architecture
    &&& identity.total_memory_gb == (total_memory * 1000) / (GIBIBYTE as int)
    &&& identity.os_name@ == text_or(os_name, "Unknown OS"@)
    &&& identity.os_version@ == text_or(os_version, "Unknown Version"@)
    &&& identity.hostname@ == text_or(hostname, "Unknown Host"@)
}

fn or_unknown(text: Option<String>, stand_in: &str) -> (chosen: String)
    ensures
        chosen@ == text_or(text, stand_in@),
{
    match text {
        Some(t) => t,
        None => String::from_str(stand_in),
    }
}

/// Describes the machine from what the operating system reports: the brand
/// of each core, the architecture, the bytes of memory installed, and the
/// system's name, version and host name where it knows them. Without cores
/// the processor is `Unknown CPU`; a name that is not known is `Unknown OS`,
/// `Unknown Version` or `Unknown Host`.
pub fn describe_hardware(
    brands: &Vec<String>,
    architecture: String,
    total_memory: u64,
    os_name: Option<String>,
    os_version: Option<String>,
    hostname: Option<String>,
) -> (identity: HardwareIdentity)
    ensures
        describes(
            identity,
            brands@,
            architecture,
            total_memory,
            os_name,
            os_version,
            hostname,
        ),
{
    let cpu_model: String = if brands.len() > 0 {
        brands[0].clone()
    } else {
        String::from_str("Unknown CPU")
    };
    HardwareIdentity {
        cpu_model,
        cpu_core_count: brands.len(),
        architecture,
        total_memory_gb: milli_gibibytes(total_memory),
        os_name: or_unknown(os_name, "Unknown OS"),
        os_version: or_unknown(os_version, "Unknown Version"),
        hostname: or_unknown(hostname, "Unknown Host"),
    }
}

/// Calls `sysinfo::System::cpus` and, on each core, `sysinfo::Cpu::brand`:
/// the brand of every core that the handle lists, in its order. What the
/// handle lists depends on the machine and on the refreshes made, so the
/// contract claims nothing of the result.
#[verifier::external_body]
fn core_brands(system: &sysinfo::System) -> (brands: Vec<String>) {
    system.cpus().iter().map(|cpu| cpu.brand().to_string()).collect()
}

/// Calls `sysinfo::System::total_memory`: the bytes of memory that the
/// handle last saw installed. The contract claims nothing of the result.
#[verifier::external_body]
fn installed_memory(system: &sysinfo::System) -> (bytes: u64) {
    system.total_memory()
}

/// Describes the machine behind a handle whose processor and memory
/// counters have been refreshed. The names of the system are read by the
/// caller. Whatever cores and memory the handle reports, the description is
/// the one that [`describe_hardware`] gives for them: a machine without
/// cores is an `Unknown CPU`, and a name that is not known is its stand-in.
pub fn identify(
    system: &sysinfo::System,
    architecture: String,
    os_name: Option<String>,
    os_version: Option<String>,
    hostname: Option<String>,
) -> (identity: HardwareIdentity)
    ensures
        exists|brands: Seq<String>, total_memory: u64|
            describes(
                identity,
                brands,
                architecture,
                total_memory,
                os_name,
                os_version,
                hostname,
            ),
        identity.cpu_core_count == 0 ==> identity.cpu_model@ == "Unknown CPU"@,
        identity.architecture == architecture,
        identity.os_name@ == text_or(os_name, "Unknown OS"@),
        identity.os_version@ == text_or(os_version, "Unknown Version"@),
        identity.hostname@ == text_or(hostname, "Unknown Host"@),
{
    let brands = core_brands(system);
    let total_memory: u64 = installed_memory(system);
    describe_hardware(&brands, architecture, total_memory, os_name, os_version, hostname)
}

} // verus!
