[package]
name = "homed"
version = "0.1.0"
edition = "2021"
publish = false

[dependencies]
chrono = "*"
infer = "*"
nom-exif = "*"
notify = "*"
reqwest = { version = "*", default-features = false }
serde = { version = "*", features = ["derive"] }
tokio = { version = "*", features = ["rt-multi-thread", "macros", "sync", "time", "fs", "signal", "process", "io-util"] }
toml = "*"
tracing = "*"
tracing-subscriber = "*"
