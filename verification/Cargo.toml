[package]
name = "docker_exporter"
version = "0.1.0"
edition = "2021"
publish = false

[dependencies]
anyhow = "1"
bollard = "0.18"
chrono = "0.4"
env_logger = "0.11"
futures-util = "0.3"
log = "0.4"
regex = "1"
tokio = { version = "1", features = ["full"] }
