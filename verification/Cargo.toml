[package]
name = "egui_replay"
version = "0.1.0"
edition = "2021"
publish = false

[dependencies]
chrono = "=0.4.45"
serde = { version = "=1.0.229", features = ["derive"] }
serde_json = "=1.0.151"
bincode = { version = "=2.0.1", features = ["serde"] }
log = "=0.4.34"
env_logger = "=0.11.11"
egui = { version = "=0.36.2", features = ["serde"] }

[dev-dependencies]
