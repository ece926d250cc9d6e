[package]
name = "spark_matcher_worker"
version = "0.1.0"
edition = "2021"
publish = false

[dependencies]
uuid = "=1.29.0"
fuels = { version = "=0.66.10", default-features = false }
serde = { version = "1", features = ["derive"] }
serde_json = "1"
schemars = "0.8"
thiserror = "1"
tokio = { version = "1", features = ["full"] }
tokio-tungstenite = "0.24"
futures-util = "0.3"
url = "2"
dotenv = "0.15"
log = "0.4"
tracing = "0.1"
tracing-subscriber = "0.3"
