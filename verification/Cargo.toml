[package]
name = "evmqtt-rs"
version = "0.2.0"
edition = "2021"
publish = false

[dependencies]
anyhow = "1"
clap = { version = "4", features = ["derive", "env"] }
evdev = { version = "0.13", features = ["tokio", "stream-trait"] }
futures-util = "0.3"
inotify = "0.11"
rumqttc = "0.24"
serde = { version = "1", features = ["derive"] }
serde_json = "1"
tabled = "*"
thiserror = "2"
tokio = { version = "1", features = ["full"] }
tokio-stream = "0.1"
toml = "*"
tracing = "0.1"
tracing-subscriber = { version = "0.3", features = ["env-filter"] }
