[package]
name = "iii_core"
version = "0.1.0"
edition = "2021"
publish = false

[dependencies]
serde = { version = "=1.0.229", features = ["derive"] }
serde_json = "=1.0.154"
schemars = "=0.8.22"
anyhow = "=1.0.104"
thiserror = "=2.0.21"
tracing = "=0.1.44"
opentelemetry = "=0.33.1"
opentelemetry_sdk = "=0.33.1"
opentelemetry-http = "=0.33.1"
opentelemetry-otlp = { version = "=0.33.1", features = ["grpc-tonic", "http-proto", "tls-ring"] }
tonic = { version = "=0.14.9", features = ["tls-native-roots"] }
reqwest = { version = "=0.13.5", default-features = false }
tokio = { version = "=1.54.1", features = ["rt", "sync", "time", "macros"] }
tokio-tungstenite = "*"
futures-util = { version = "=0.3.34", features = ["sink"] }
