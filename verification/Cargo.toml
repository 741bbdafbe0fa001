[package]
name = "i_am_surging"
version = "0.1.0"
edition = "2021"
publish = false

[dependencies]
url = "*"
serde = { version = "*", features = ["derive"] }
serde_json = "*"
tokio = { version = "*", features = ["full"] }
tokio-tungstenite = "*"
futures-util = "*"
axum = { version = "*", features = ["ws"] }
tower = "*"
tower-http = { version = "*", features = ["cors", "trace", "timeout"] }
tracing = "*"
tracing-subscriber = { version = "*", features = ["env-filter", "fmt", "json"] }
metrics = "*"
metrics-exporter-prometheus = { version = "*", default-features = false }
once_cell = "*"
reqwest = { version = "*", default-features = false }
clap = { version = "*", features = ["derive"] }
