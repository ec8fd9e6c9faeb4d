[package]
name = "mprism"
version = "0.1.0"
edition = "2021"
publish = false

[dependencies]
serde_json = "=1.0.154"
url = "=2.5.8"
serde = { version = "=1.0.229", features = ["derive"] }
reqwest = { version = "=0.12.28", default-features = false, features = ["stream", "json", "rustls-tls"] }
tokio = { version = "=1.54.1", features = ["rt", "macros", "time", "sync"] }
tokio-util = "=0.7.20"
uuid = { version = "=1.29.0", features = ["v4", "v7", "serde"] }
time = { version = "=0.3.55", features = ["serde", "formatting", "parsing", "macros"] }
base64 = "=0.22.1"
parking_lot = "=0.12.5"
dirs = "=5.0.1"
