[package]
name = "spacedrive_core"
version = "0.1.0"
edition = "2021"
publish = false

[dependencies]
http-range = "=0.1.6"
ring = "=0.17.14"
data-encoding = "=2.11.1"
uuid = { version = "=1.29.1", features = ["v4"] }
tokio = { version = "=1.54.1", features = ["fs", "io-util", "rt", "macros", "sync", "time"] }
serde = { version = "=1.0.229", features = ["derive"] }
rmp-serde = "=1.3.1"
image = { version = "0.24", default-features = false }
serde_json = "1"
