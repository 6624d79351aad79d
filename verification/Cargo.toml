[package]
name = "keyframe_indexer"
version = "0.1.0"
edition = "2021"
publish = false

[dependencies]
aes-gcm = "0.10"
anyhow = "1"
arrow = { version = "*", default-features = false }
bincode = "1"
chrono = { version = "0.4", default-features = false, features = ["clock", "std"] }
clap = { version = "4", features = ["derive"] }
hex = "0.4"
image = { version = "0.25", default-features = false, features = ["png", "jpeg"] }
notify = "6"
parquet = { version = "*", default-features = false, features = ["arrow", "snap"] }
rand = "0.8"
regex = "1"
serde = { version = "1", features = ["derive"] }
serde_json = "1"
thiserror = "1"
tokio = { version = "1", features = ["rt-multi-thread", "macros", "sync", "time"] }
tracing = "0.1"
tracing-subscriber = "0.3"
uuid = { version = "1", features = ["v4"] }
