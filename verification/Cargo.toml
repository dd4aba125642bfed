[package]
name = "ocdb-client"
version = "0.1.0"
edition = "2021"
publish = false

[dependencies]
raw-cpuid = "=11.6.0"
serde = { version = "1", features = ["derive"] }
serde_json = "1"
shakmaty = "0.29"
sysinfo = "0.30"
ureq = { version = "2", features = ["json"] }
