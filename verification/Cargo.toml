[package]
name = "request_telemetry"
version = "0.1.0"
edition = "2021"
publish = false

[dependencies]
axum = "0.7"
http = "1"
http-body-util = "0.1"
opentelemetry = "0.27"
opentelemetry-appender-tracing = "0.27"
opentelemetry-http = "0.27"
opentelemetry-otlp = { version = "0.27", default-features = false, features = ["grpc-tonic", "trace", "logs", "metrics"] }
opentelemetry_sdk = { version = "0.27", features = ["rt-tokio"] }
opentelemetry-semantic-conventions = { version = "0.27", features = ["semconv_experimental"] }
opentelemetry-stdout = "0.27"
serde_json = "1"
tracing = "0.1"
tracing-core = "0.1"
tracing-opentelemetry = "0.28"
tracing-subscriber = "0.3"
