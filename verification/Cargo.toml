[package]
name = "antigravity_core"
version = "4.1.26"
edition = "2021"
publish = false

[dependencies]
chrono = "=0.4.45"
dirs = "=5.0.1"
futures = "=0.3.34"
once_cell = "=1.21.4"
regex = "=1.13.1"
reqwest = { version = "=0.12.28", default-features = false, features = ["blocking"] }
serde = { version = "=1.0.229", features = ["derive"] }
serde_json = "=1.0.154"
sysinfo = "=0.31.4"
tokio = { version = "=1.54.1", features = ["sync", "rt", "time", "process"] }
uuid = { version = "=1.29.0", features = ["v4"] }
