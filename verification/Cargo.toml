[package]
name = "ores_otel_sidecar"
version = "0.1.0"
edition = "2021"
publish = false

[dependencies]
basic-toml = "0.1"
serde = { version = "1", features = ["derive"] }
serde_json = "1"
sysinfo = "0.37"
time = "0.3"
