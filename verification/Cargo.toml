[package]
name = "whispertype"
version = "0.1.0"
edition = "2021"
publish = false

[dependencies]
ringbuf = "0.4"
cpal = "0.17"
whisper-rs = "0.15"
enigo = "0.6"
dirs = "6"
serde = { version = "1", features = ["derive"] }
serde_json = "1"
tokio = { version = "1", features = ["fs", "io-util", "rt"] }
reqwest = { version = "0.12", features = ["stream"] }
futures-util = "0.3"
