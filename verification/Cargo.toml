[package]
name = "betstream"
version = "0.1.0"
edition = "2021"
publish = false

[dependencies]
anyhow = "*"
axum = "*"
chrono = "*"
futures = "*"
serde = { version = "*", features = ["derive"] }
serde_json = "*"
tokio = { version = "*", features = ["rt-multi-thread", "macros", "net", "sync", "time"] }
tokio-stream = { version = "*", features = ["sync", "time"] }
tower-http = { version = "*", features = ["cors"] }
tracing-subscriber = "*"
