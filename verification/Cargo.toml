[package]
name = "attic_logic"
version = "0.1.0"
edition = "2021"
publish = false

[dependencies]
anyhow = "*"
axum = { version = "*", default-features = false }
clap = { version = "*", features = ["derive"] }
console-subscriber = "*"
dialoguer = "*"
humantime = "*"
opentelemetry = "*"
opentelemetry-appender-tracing = "*"
opentelemetry-otlp = { version = "*", features = ["grpc-tonic"] }
opentelemetry_sdk = "*"
reqwest = { version = "*", default-features = false }
serde = { version = "*", features = ["derive"] }
serde_json = "*"
tokio = { version = "*", features = ["full"] }
tracing = "*"
tracing-error = "*"
tracing-opentelemetry = "*"
tracing-subscriber = { version = "*", features = ["env-filter"] }
