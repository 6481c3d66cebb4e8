[package]
name = "utterance"
version = "0.1.0"
edition = "2021"
publish = false

[dependencies]
anyhow = "1"
regex = "1"
serde = { version = "1", features = ["derive"] }
serde_json = "1"
webrtc-vad = "*"
rustpotter = "*"
cpal = "*"
rodio = "*"
tokio = { version = "1", features = ["macros", "rt-multi-thread", "time", "process"] }
reqwest = { version = "*", default-features = false, features = ["json"] }
