[package]
name = "martus_proxy"
version = "0.1.0"
edition = "2021"
publish = false

[dependencies]
axum = "0.6"
dotenv = "0.15"
hyper = { version = "0.14", features = ["full"] }
serde_json = "1"
tokio = { version = "1", features = ["full"] }
tower-http = { version = "0.4", features = ["cors"] }
tracing-subscriber = { version = "0.3", features = ["env-filter"] }
