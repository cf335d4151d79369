[package]
name = "dietpi_dashboard"
version = "0.1.0"
edition = "2021"
publish = false

[dependencies]
jsonwebtoken = "8"
serde_json = "1"
ring = "0.16"
zip = { version = "0.6", default-features = false, features = ["deflate"] }
warp = { version = "0.3", features = ["tls"] }
tokio = { version = "1", features = ["macros", "rt", "sync"] }
futures = "0.3"
nanoserde = "0.1"
pty-process = "0.1"
walkdir = "2"
figment = { version = "0.10", features = ["toml", "env"] }
serde = { version = "1", features = ["derive"] }
psutil = "3"
log = "0.4"
anyhow = "1"
