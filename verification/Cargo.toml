[package]
name = "strandgut"
version = "0.1.0"
edition = "2021"
publish = false

[dependencies]
matchit = "0.8"
fastrand = "2"
hyper = { version = "1", features = ["server", "http1"] }
hyper-util = { version = "0.1", features = ["tokio"] }
http-body-util = "0.1"
tokio = { version = "1", features = ["full"] }
serde = { version = "1", features = ["derive"] }
serde_json = "1"
toml = "0.8"
ureq = "3"
log = "0.4"
env_logger = "0.11"
