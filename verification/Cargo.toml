[package]
name = "auto_batching_proxy"
version = "0.1.0"
edition = "2021"
publish = false

[dependencies]
url = "*"
tokio = { version = "*", features = ["macros", "rt-multi-thread", "signal", "sync", "time", "net"] }
axum = "*"
reqwest = { version = "*", default-features = false, features = ["json"] }
serde = { version = "*", features = ["derive"] }
serde_json = "*"
anyhow = "*"
figment = { version = "*", features = ["env"] }
secrecy = { version = "*", features = ["serde"] }
chrono = "*"
dotenvy = "*"
tracing = "*"
tracing-subscriber = { version = "*", features = ["env-filter"] }
thiserror = "*"
