[package]
name = "aura_factory"
version = "0.1.0"
edition = "2021"
publish = false

[dependencies]
anyhow = "1"
chrono = "0.4"
ffmpeg-sidecar = { version = "2.3.0", default-features = false }
rand = "0.9"
reqwest = { version = "0.12", default-features = false, features = ["blocking"] }
serde = { version = "1", features = ["derive"] }
serde_json = "1"
