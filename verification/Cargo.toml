[package]
name = "completion_pipeline"
version = "0.1.0"
edition = "2021"
publish = false

[dependencies]
serde_json = "1"
anyhow = "1"
axum = "*"
dotenvy = "*"
env_logger = "*"
futures-util = "0.3"
log = "0.4"
reqwest = { version = "*", default-features = false, features = ["json"] }
serde = { version = "1", features = ["derive"] }
tokio = { version = "1", features = ["full"] }
