[package]
name = "adapter"
version = "0.1.0"
edition = "2021"
publish = false

[dependencies]
tokio = { version = "*", features = ["rt", "sync", "signal", "net", "time", "macros"] }
tokio-util = "*"
axum = "*"
tower-http = { version = "*", features = ["trace"] }
tracing = "*"
tracing-subscriber = { version = "*", features = ["fmt", "json"] }
nix = { version = "*", features = ["socket"] }
chrono = "*"
envconfig = "*"
thiserror = "*"
