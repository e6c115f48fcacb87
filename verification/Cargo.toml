[package]
name = "gemini_proxy"
version = "0.1.0"
edition = "2021"
publish = false

[dependencies]
serde_json = "*"
rand = "0.8"
serde = { version = "*", features = ["derive"] }
anyhow = "*"
axum = "*"
chrono = "*"
clap = { version = "*", features = ["derive"] }
env_logger = "*"
futures-util = "*"
home = "*"
oauth2 = "4"
reqwest = { version = "*", features = ["json", "stream"] }
tokio = { version = "*", features = ["full"] }
tokio-stream = "*"
tower-http = { version = "*", features = ["cors"] }
