[package]
name = "organism"
version = "0.1.0"
edition = "2021"
publish = false

[dependencies]
rand = "*"
chrono = "*"
md5 = "*"
sha2 = "*"
serde = { version = "*", features = ["derive"] }
serde_json = "*"
tokio = { version = "*", features = ["full"] }
axum = "*"
futures = "*"
tower-http = { version = "*", features = ["cors"] }
log = "*"
env_logger = "*"
