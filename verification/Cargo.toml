[package]
name = "whashreonator"
version = "0.1.0"
edition = "2021"
publish = false

[dependencies]
aes = "0.8"
repak = "*"
serde = { version = "1", features = ["derive"] }
serde_json = "1"
clap = { version = "4", features = ["derive"] }
thiserror = "*"
tracing = "0.1"
tracing-subscriber = "0.3"
