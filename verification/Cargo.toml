[package]
name = "kbot"
version = "0.1.0"
edition = "2021"
publish = false

[dependencies]
serde_json = "1"
chrono = "0.4"
clap = { version = "4", features = ["derive"] }
eyre = "0.6"
ndarray = "0.16"
ort = { version = "=2.0.0-rc.9", default-features = false, features = ["ndarray", "load-dynamic"] }
robstride = "*"
imu = "*"
tokio = { version = "1", features = ["full"] }
tracing = "0.1"
tracing-subscriber = "0.3"
time = { version = "0.3", features = ["local-offset"] }
