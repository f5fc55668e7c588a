[package]
name = "happy_remote"
version = "0.1.0"
edition = "2021"
publish = false

[dependencies]
dashmap = "=6.2.1"
argon2 = "=0.5.3"
rand = "=0.8.8"
uuid = { version = "=1.29.0", features = ["v4"] }
chrono = { version = "=0.4.45", features = ["serde"] }
serde = { version = "=1.0.229", features = ["derive"] }
serde_json = { version = "=1.0.154", features = ["preserve_order"] }
jsonwebtoken = "=9.3.1"
tokio = { version = "=1.54.1", features = ["full"] }
axum = { version = "=0.7.9", features = ["ws"] }
tower-http = { version = "=0.5.2", features = ["cors", "fs", "trace"] }
tracing = "=0.1.44"
tracing-subscriber = "=0.3.23"
sqlx = { version = "=0.7.4", features = ["runtime-tokio", "sqlite", "chrono"] }
anyhow = "=1.0.104"
futures = "=0.3.34"
