[package]
name = "agentsmith"
version = "0.1.0"
edition = "2021"
publish = false

[dependencies]
chrono = "0.4"
uuid = { version = "1", features = ["v4"] }
serde = { version = "1", features = ["derive"] }
serde_json = "1"
thiserror = "1"
tokio = { version = "1", features = ["fs", "rt", "macros"] }
sqlx = { version = "0.8", default-features = false, features = ["sqlite", "runtime-tokio"] }
rig-core = "0.5"
