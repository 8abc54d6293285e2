[package]
name = "windows-toolbox"
version = "0.3.0"
edition = "2021"
publish = false

[dependencies]
anyhow = "1"
directories = "*"
serde = { version = "1", features = ["derive"] }
serde_json = "1"
serialport = { version = "4", default-features = false }
thiserror = "*"
tracing = "0.1"
tracing-subscriber = { version = "0.3", features = ["env-filter"] }
