[package]
name = "filecoin_scheduler"
version = "0.1.0"
edition = "2021"
publish = false

[dependencies]
semaphore = "0.4"
serde = { version = "1", features = ["derive"] }
serde_yaml = "0.8"
log = "0.4"
once_cell = "1"
failure = "0.1"
grpcio = "0.6"
protobuf = "2"
futures = "0.3"
clap = "2"
env_logger = "0.7"
