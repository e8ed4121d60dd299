[package]
name = "yinx"
version = "0.1.0"
edition = "2021"
publish = false

[dependencies]
regex = "=1.13.1"
url = "=2.5.8"
uuid = { version = "=1.29.0", features = ["v4"] }
serde = { version = "=1.0.229", features = ["derive"] }
serde_json = "=1.0.154"
crossterm = "=0.28.1"
ratatui = "=0.29.0"
clap = { version = "=4.6.7", features = ["derive"] }
tokio = { version = "=1.54.1", features = ["macros", "rt-multi-thread"] }
tracing-subscriber = "=0.3.23"
chrono = "=0.4.45"
serde_yaml = "=0.9.34"
base64 = "0.22"
