[package]
name = "light_control"
version = "0.1.0"
edition = "2021"
publish = false

[dependencies]
macaddr = "1"
tinkerforge-async = "*"
tokio = { version = "1", features = ["macros", "rt-multi-thread", "sync", "time", "signal", "fs", "io-util"] }
tokio-stream = { version = "0.1", features = ["sync"] }
tokio-util = "0.7"
futures = "0.3"
serde = { version = "1", features = ["derive"] }
serde_yaml = "0.9"
serde_json = "1"
ron = "0.8"
log = "0.4"
env_logger = "0.11"
chrono = "0.4"
chrono-tz = "0.9"
thiserror = "1"
lazy_static = "1"
config = "0.14"
