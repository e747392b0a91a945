[package]
name = "miradors"
version = "0.1.0"
edition = "2021"
publish = false

[dependencies]
mailgun-rs = "=2.0.2"
reqwest = { version = "=0.13.5", default-features = false, features = ["blocking", "rustls-no-provider"] }
rustls = { version = "=0.23.45", default-features = false, features = ["ring", "logging", "std", "tls12"] }
serde = { version = "=1.0.229", features = ["derive"] }
serde_json = "=1.0.151"
tracing = "=0.1.44"
tracing-subscriber = "=0.3.23"
