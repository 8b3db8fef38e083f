[package]
name = "powerdna"
version = "0.1.0"
edition = "2021"
publish = false

[dependencies]
itertools = "0.10"
chrono = "0.4"
flatbuffers = "0.8"
rdkafka = "0.25"
serde = { version = "1", features = ["derive"] }
serde_json = "1"
thiserror = "1"
tokio = { version = "1", features = ["macros", "rt-multi-thread", "signal", "sync", "time"] }
warp = "0.3"
