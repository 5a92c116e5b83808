[package]
name = "lx_audiolabs"
version = "0.1.0"
edition = "2021"

[dependencies]
egui = { version = "=0.34.3", default-features = false }
realfft = "=3.5.1"
serde = { version = "=1.0.229", features = ["derive"] }
serde_json = "=1.0.154"
truce = { version = "=2.0.2", default-features = false }
truce-core = "=2.0.2"
truce-egui = { version = "=2.0.2", default-features = false }
