[package]
name = "for_you_feed"
version = "0.1.0"
edition = "2021"
publish = false

[dependencies]
anyhow = "1"
clap = { version = "4", features = ["derive"] }
dashmap = "6.1"
env_logger = "0.11"
futures = "0.3"
log = "0.4"
prost = "0.13"
serde = { version = "1", features = ["derive"] }
thrift = "0.17"
tokio = { version = "1", features = ["full"] }
tonic = "0.12"
uuid = { version = "1", features = ["v4"] }
