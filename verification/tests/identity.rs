use hardware_monitor::identity::{describe_hardware, identify};
use hardware_monitor::usage::milli_gibibytes;

#[test]
fn first_core_stands_for_the_processor() {
    let brands = vec![
        "AMD Ryzen 7 5800X 8-Core Processor".to_string(),
        "another brand".to_string(),
    ];
    let identity = describe_hardware(
        &brands,
        "x86_64".to_string(),
        17_179_869_184,
        Some("Ubuntu".to_string()),
        Some("22.04".to_string()),
        Some("bench".to_string()),
    );
    assert_eq!(identity.cpu_model, "AMD Ryzen 7 5800X 8-Core Processor");
    assert_eq!(identity.cpu_core_count, 2);
    assert_eq!(identity.architecture, "x86_64");
    assert_eq!(identity.total_memory_gb, 16_000);
    assert_eq!(identity.os_name, "Ubuntu");
    assert_eq!(identity.os_version, "22.04");
    assert_eq!(identity.hostname, "bench");
}

#[test]
fn empty_core_list_is_an_unknown_cpu() {
    let identity = describe_hardware(&Vec::new(), "aarch64".to_string(), 0, None, None, None);
    assert_eq!(identity.cpu_model, "Unknown CPU");
    assert_eq!(identity.cpu_core_count, 0);
    assert_eq!(identity.architecture, "aarch64");
    assert_eq!(identity.total_memory_gb, 0);
}

#[test]
fn names_that_are_not_known_get_their_stand_ins() {
    let identity = describe_hardware(&Vec::new(), String::new(), 0, None, None, None);
    assert_eq!(identity.os_name, "Unknown OS");
    assert_eq!(identity.os_version, "Unknown Version");
    assert_eq!(identity.hostname, "Unknown Host");
}

#[test]
fn each_name_falls_back_on_its_own() {
    let identity = describe_hardware(
        &vec![String::new()],
        "riscv64".to_string(),
        1,
        None,
        Some("6.1".to_string()),
        None,
    );
    assert_eq!(identity.cpu_model, "");
    assert_eq!(identity.cpu_core_count, 1);
    assert_eq!(identity.os_name, "Unknown OS");
    assert_eq!(identity.os_version, "6.1");
    assert_eq!(identity.hostname, "Unknown Host");
    let identity = describe_hardware(&Vec::new(), String::new(), 1, Some(String::new()), None, Some("pi".to_string()));
    assert_eq!(identity.os_name, "");
    assert_eq!(identity.os_version, "Unknown Version");
    assert_eq!(identity.hostname, "pi");
}

#[test]
fn memory_is_given_in_thousandths_of_a_gibibyte() {
    let identity = describe_hardware(&Vec::new(), String::new(), 8_000_000_000, None, None, None);
    assert_eq!(identity.total_memory_gb, 7_450);
    assert!((identity.total_memory_gb as f32 / 1000.0 - 8_000_000_000f32 / (1024.0 * 1024.0 * 1024.0)).abs() < 0.001);
}

#[test]
fn a_handle_that_was_never_refreshed_lists_no_cores() {
    let system = sysinfo::System::new();
    let identity = identify(&system, "x86_64".to_string(), None, Some("1".to_string()), None);
    assert_eq!(identity.cpu_model, "Unknown CPU");
    assert_eq!(identity.cpu_core_count, 0);
    assert_eq!(identity.total_memory_gb, 0);
    assert_eq!(identity.architecture, "x86_64");
    assert_eq!(identity.os_name, "Unknown OS");
    assert_eq!(identity.os_version, "1");
    assert_eq!(identity.hostname, "Unknown Host");
}

#[test]
fn a_refreshed_handle_is_described_as_it_is() {
    let mut system = sysinfo::System::new();
    system.refresh_cpu();
    system.refresh_memory();
    let identity = identify(&system, "x86_64".to_string(), None, None, None);
    assert_eq!(identity.cpu_core_count, system.cpus().len());
    assert_eq!(identity.total_memory_gb, milli_gibibytes(system.total_memory()));
    match system.cpus().first() {
        Some(cpu) => assert_eq!(identity.cpu_model, cpu.brand()),
        None => assert_eq!(identity.cpu_model, "Unknown CPU"),
    }
}
