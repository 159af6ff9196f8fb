[package]
name = "systemd_exporterd"
version = "0.1.0"
edition = "2021"
publish = false

[dependencies]
prometheus-client = "=0.25.2"
heck = "=0.5.0"
tokio = { version = "=1.54.1", features = ["full"] }
tokio-stream = "=0.1.19"
axum = "=0.8.9"
zbus_systemd = { version = "=0.26201.0", features = ["systemd1", "login1", "zbus-async-tokio"] }
tracing = "=0.1.44"
tracing-subscriber = { version = "=0.3.23", features = ["env-filter"] }
clap = { version = "=4.6.7", features = ["cargo"] }
serde = { version = "=1.0.229", features = ["derive"] }
config = { version = "=0.15.27", default-features = false, features = ["convert-case"] }
tokio-listener = { version = "=0.5.2", features = ["serde", "axum08"] }
libc = "=0.2.191"
snafu = "=0.9.2"
enum_dispatch = "=0.3.13"
syn = { version = "=2.0.119", features = ["full"] }
quote = "=1.0.47"
proc-macro2 = "=1.0.107"
