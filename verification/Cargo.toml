[package]
name = "codex_repair"
version = "0.1.0"
edition = "2021"
publish = false

[dependencies]
serde = { version = "1", features = ["derive"] }
serde_json = "1"
chrono = "0.4"
junction = "1"
sysinfo = { version = "0.33", default-features = false, features = ["system"] }
