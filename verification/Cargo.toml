[package]
name = "hardware_monitor"
version = "0.1.0"
edition = "2021"
publish = false

[dependencies]
serde = { version = "1", features = ["derive"] }
sysinfo = "0.30"
systemstat = "0.2"
tokio = { version = "1", features = ["macros", "rt-multi-thread", "time"] }
wmi = "0.13"
