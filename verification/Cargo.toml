[package]
name = "collector"
version = "0.1.0"
edition = "2021"
publish = false

[dependencies]
anyhow = "1"
crossbeam-utils = "0.8"
futures = "0.3"
jobserver = "0.1"
lazy_static = "1"
log = "0.4"
num_cpus = "1"
serde = { version = "1", features = ["derive"] }
serde_json = "1"
snap = "1"
tar = "0.4"
tempfile = "3"
thiserror = "1"
tokio = { version = "1", default-features = false, features = ["rt"] }
