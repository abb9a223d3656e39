[package]
name = "message_relay"
version = "0.1.0"
edition = "2021"
publish = false

[dependencies]
anyhow = "=1.0.104"
bcrypt = "=0.15.1"
chrono = "=0.4.45"
futures-util = "=0.3.34"
jsonwebtoken = "=9.3.1"
poem = { version = "=3.1.12", features = ["static-files", "sse"] }
poem-openapi = { version = "=5.1.16", features = ["swagger-ui"] }
serde = { version = "=1.0.229", features = ["derive"] }
serde_json = "=1.0.151"
sled = "=0.34.7"
sqlx = { version = "=0.8.6", default-features = false, features = ["runtime-tokio", "sqlite"] }
tokio = { version = "=1.53.2", features = ["macros", "rt-multi-thread", "sync", "time"] }
tokio-stream = { version = "=0.1.19", features = ["sync"] }
tracing-subscriber = "=0.3.23"
uuid = { version = "=1.27.0", features = ["v4"] }
