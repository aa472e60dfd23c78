[package]
name = "nexusgate"
version = "0.1.0"
edition = "2021"
publish = false

[dependencies]
base64 = "0.22"
serde = { version = "1", features = ["derive"] }
serde_json = "1"
toml = "0.8"
tokio = { version = "1", features = ["full"] }
axum = { version = "0.7", features = ["ws"] }
parking_lot = "0.12"
dashmap = "6"
uuid = { version = "1", features = ["v4"] }
chrono = "0.4"
anyhow = "1"
tracing = "0.1"
tracing-subscriber = { version = "0.3", features = ["env-filter"] }
clap = { version = "4", features = ["derive"] }
reqwest = { version = "0.12", default-features = false }
futures = "0.3"
bytes = "1"
http-body-util = "0.1"
tower-http = { version = "0.5", features = ["trace", "cors"] }
tokio-tungstenite = "0.21"
mime_guess = "2"
rust-embed = "8"
sqlx = { version = "0.8", default-features = false, features = ["runtime-tokio", "sqlite"] }
