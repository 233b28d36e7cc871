[package]
name = "voiceapp"
version = "0.1.0"
edition = "2021"
publish = false

[dependencies]
chrono = "0.4"
tokio = { version = "1", features = ["net", "sync", "rt-multi-thread", "macros", "time", "io-util"] }
tracing = "0.1"
tracing-subscriber = "0.3"
serde = { version = "1", features = ["derive"] }
toml = "*"
arc-swap = "1"
opus = "*"
cpal = "*"
hound = "3"
rubato = "0.16"
