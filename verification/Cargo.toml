[package]
name = "governor_policy"
version = "0.1.0"
edition = "2021"
publish = false

[dependencies]
tokio = { version = "*", default-features = false, features = ["rt", "time"] }
rama-core = "=0.2.0"
tracing = "*"
thiserror = "*"
