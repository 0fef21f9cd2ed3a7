[package]
name = "tasksolver"
version = "0.1.0"
edition = "2021"
publish = false

[dependencies]
async-channel = "2"
base64 = "0.22"
chashmap = "2.2"
chrono = "0.4"
clap = { version = "4", features = ["derive"] }
regex = "1"
serde = { version = "1", features = ["derive"] }
serde_json = "1"
tokio = { version = "1", features = ["full"] }
uuid = { version = "1", features = ["v4"] }
warp = "0.3"
