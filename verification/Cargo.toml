[package]
name = "heimdall"
version = "0.1.0"
edition = "2021"
publish = false

[dependencies]
blt-utils = "*"
crossbeam-channel = "0.5"
directories = "5"
serde = { version = "1", features = ["derive"] }
serde_yaml = "0.9"
sysinfo = "0.29"
tracing = "0.1"
tracing-subscriber = "0.3"
