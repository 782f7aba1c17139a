[package]
name = "weixin_reader"
version = "0.1.0"
edition = "2021"
publish = false

[dependencies]
scraper = "=0.27.0"
chromiumoxide = "=0.9.1"
futures = "=0.3.34"
tokio = { version = "=1.53.2", features = ["full"] }
rmcp = { version = "=3.5.1", features = ["server", "macros", "transport-io"] }
serde = { version = "=1.0.229", features = ["derive"] }
serde_json = "=1.0.151"
tracing = "=0.1.44"
tracing-subscriber = "=0.3.23"
