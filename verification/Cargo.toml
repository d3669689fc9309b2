[package]
name = "snake"
version = "0.1.0"
edition = "2021"
publish = false

[dependencies]
serde_json = "1"
serde = { version = "1", features = ["derive"] }
toml = "*"
axum = "*"
tokio = { version = "1", features = ["rt-multi-thread", "macros", "net", "time", "sync"] }
tokio-stream = "*"
bytes = "1"
reqwest = { version = "*", default-features = false, features = ["rustls-tls"] }
http-body-util = "*"
