[package]
name = "impostor"
version = "0.1.0"
edition = "2021"
publish = false

[dependencies]
axum = "0.7"
axum-extra = { version = "0.9", features = ["cookie"] }
clap = { version = "4", features = ["derive"] }
env_logger = "0.11"
eyre = "0.6"
log = "0.4"
regex = "1"
serde_json = "1"
serde_qs = "0.12"
tokio = { version = "1", features = ["macros", "rt-multi-thread", "net"] }
