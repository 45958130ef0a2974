[package]
name = "mill_node"
version = "0.1.0"
edition = "2021"
publish = false

[dependencies]
axum = "0.8"
bytesize = { version = "2", features = ["serde"] }
hex = "0.4"
humantime = "2"
num_cpus = "1"
openraft = { version = "0.9", features = ["serde"] }
parking_lot = "0.12"
rand = "0.8"
reqwest = { version = "0.12", default-features = false, features = ["json", "stream"] }
serde = { version = "1", features = ["derive"] }
serde_json = "1"
subtle = "2"
sysinfo = { version = "0.33", default-features = false, features = ["system"] }
thiserror = "2"
tokio = { version = "1", features = ["full"] }
tokio-stream = "0.1"
tokio-util = "0.7"
tracing = "0.1"
