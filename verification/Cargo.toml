[package]
name = "slot_race"
version = "0.1.0"
edition = "2021"
publish = false

[dependencies]
anyhow = "*"
backoff = "*"
chrono = "*"
clap = { version = "*", features = ["derive"] }
env_logger = "*"
futures = "*"
log = "*"
tokio = { version = "*", features = ["rt-multi-thread", "macros", "sync", "signal", "time"] }
tokio-stream = "*"
yellowstone-grpc-client = "*"
yellowstone-grpc-proto = "*"
