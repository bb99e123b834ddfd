[package]
name = "fusebox"
version = "0.1.0"
edition = "2021"
publish = false

[dependencies]
anyhow = "1"
axum = { version = "*", features = ["ws"] }
chrono = "0.4"
cron = "*"
reqwest = { version = "*", default-features = false }
rust_xlsxwriter = "*"
serde = { version = "1", features = ["derive"] }
serde_json = "1"
tapo = "*"
tokio = { version = "1", features = ["full"] }
tracing = "0.1"
tracing-subscriber = { version = "0.3", features = ["env-filter"] }
