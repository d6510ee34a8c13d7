[package]
name = "build_state"
version = "0.1.0"
edition = "2021"
publish = false

[dependencies]
bytes = "=1.12.1"
clap = { version = "=4.6.7", features = ["derive"] }
crossterm = "=0.27.0"
futures = "=0.3.34"
http = "=1.5.0"
http-body-util = "=0.1.5"
hyper = { version = "=1.12.0", features = ["full"] }
indoc = "=2.0.8"
mime = "=0.3.17"
num = "=0.4.3"
serde = { version = "=1.0.229", features = ["derive"] }
serde_json = "=1.0.154"
serde_urlencoded = "=0.7.1"
serde_with = { version = "=3.24.0", features = ["base64"] }
thiserror = "=1.0.69"
time = { version = "=0.3.55", features = ["formatting", "parsing"] }
tokio = { version = "=1.54.1", features = ["full"] }
tokio-stream = { version = "=0.1.19", features = ["time", "sync"] }
tokio-util = { version = "=0.7.20", features = ["io"] }
urlencoding = "=2.1.3"
v8 = "*"
