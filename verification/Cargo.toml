[package]
name = "quest_notifier"
version = "0.1.0"
edition = "2021"
publish = false

[dependencies]
rand = "*"
serde = { version = "*", features = ["derive"] }
serde_json = "*"
toml = "*"
log = "*"
env_logger = "*"
thiserror = "*"
chrono = "*"
tokio = { version = "*", features = ["rt-multi-thread", "macros", "time", "net"] }
axum = "*"
reqwest = { version = "*", default-features = false, features = ["json", "rustls-tls"] }
