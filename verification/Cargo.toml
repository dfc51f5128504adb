[package]
name = "apify_connector"
version = "0.1.0"
edition = "2021"
publish = false

[dependencies]
anyhow = "1"
axum = "0.8"
chrono = "0.4"
metrics = "*"
metrics-exporter-prometheus = { version = "*", default-features = false }
reqwest = { version = "0.12", features = ["json"] }
rhai = "1"
schemars = "0.8"
serde = { version = "1", features = ["derive"] }
serde_json = "1"
thiserror = "*"
tokio = { version = "1", features = ["full"] }
tracing = "0.1"
tracing-subscriber = { version = "0.3", features = ["env-filter"] }
