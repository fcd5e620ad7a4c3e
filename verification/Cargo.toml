[package]
name = "mongodb_stream_rs"
version = "0.1.0"
edition = "2021"
publish = false

[dependencies]
chrono = "*"
mongodb = "*"
bson = "*"
tokio = { version = "*", features = ["rt-multi-thread", "macros", "sync"] }
futures = "*"
log = "*"
clap = "*"
env_logger = "*"
