[package]
name = "server_axum"
version = "0.1.0"
edition = "2021"
publish = false

[dependencies]
axum = "*"
dotenvy = "*"
futures = "*"
mongodb = "*"
serde = { version = "*", features = ["derive"] }
tokio = { version = "*", features = ["full"] }
tower-http = { version = "*", features = ["cors", "trace"] }
tracing-subscriber = "*"
