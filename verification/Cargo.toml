[package]
name = "blec"
version = "0.12.0"
edition = "2021"
publish = false

[dependencies]
btleplug = "=0.12.0"
dbus = { version = "=0.9.12", features = ["vendored"] }
futures = "=0.3.34"
tokio = { version = "=1.54.1", features = ["rt", "sync", "time"] }
tracing = "=0.1.44"
uuid = "=1.29.0"
