[package]
name = "openperplexity"
version = "0.1.0"
edition = "2021"
publish = false

[dependencies]
anyhow = "=1.0.104"
axum = "=0.8.9"
dotenvy = "=0.15.7"
futures = "=0.3.34"
reqwest = { version = "=0.13.5", default-features = false, features = ["json", "query"] }
rmcp = { version = "=3.5.0", features = ["server", "transport-streamable-http-server"] }
schemars = { version = "=1.2.2", features = ["derive"] }
serde = { version = "=1.0.229", features = ["derive"] }
serde_json = "=1.0.151"
tokio = { version = "=1.53.2", features = ["full"] }
tokio-util = "=0.7.19"
tracing = "=0.1.44"
tracing-subscriber = { version = "=0.3.23", features = ["env-filter"] }
