[package]
name = "proxy"
version = "0.1.0"
edition = "2021"
publish = false

[dependencies]
anyhow = "1"
axum = "0.8"
hyper-util = { version = "0.1", features = ["client-legacy", "http1", "tokio"] }
mime_guess = "2"
reqwest = { version = "0.12", default-features = false, features = ["json"] }
ron = "*"
serde = { version = "1", features = ["derive"] }
serde_json = "1"
sha2 = "0.10"
tokio = { version = "1", features = ["full"] }
tracing = "0.1"
tracing-subscriber = { version = "0.3", features = ["env-filter", "json"] }
