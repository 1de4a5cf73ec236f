[package]
name = "fmaas_router"
version = "0.1.0"
edition = "2021"
publish = false

[dependencies]
anyhow = "*"
async-stream = "=0.3.6"
axum = "=0.8.9"
chrono = "=0.4.45"
clap = { version = "*", features = ["derive", "env"] }
futures = "*"
ginepro = "=0.9.3"
minijinja = "=2.24.0"
opentelemetry = "=0.33.0"
opentelemetry-otlp = { version = "=0.33.0", features = ["grpc-tonic"] }
opentelemetry_sdk = "=0.33.0"
serde = { version = "*", features = ["derive"] }
tokio = { version = "*", features = ["full"] }
tonic = "=0.13.1"
tracing = "*"
tracing-opentelemetry = "=0.34.0"
tracing-subscriber = { version = "*", features = ["env-filter", "json"] }
uuid = { version = "=1.27.0", features = ["v4"] }
