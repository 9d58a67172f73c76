[package]
name = "fakebook"
version = "0.1.0"
edition = "2021"
publish = false

[dependencies]
async-graphql = { version = "*", features = ["dataloader", "time"] }
async-graphql-axum = "*"
async-stream = "*"
async-trait = "*"
axum = { version = "*", features = ["ws"] }
base64 = "0.22"
deadpool-postgres = "*"
dotenvy = "*"
futures = "*"
hyper = "*"
opentelemetry = "*"
opentelemetry_sdk = "*"
postgres-types = { version = "*", features = ["derive", "with-time-0_3"] }
refinery = { version = "*", features = ["tokio-postgres"] }
reqwest = { version = "*", default-features = false, features = ["json"] }
serde = { version = "*", features = ["derive"] }
thiserror = "*"
time = "*"
tokio = { version = "1", features = ["macros", "rt-multi-thread", "sync", "time", "net", "signal"] }
tokio-postgres = { version = "*", features = ["with-time-0_3"] }
tokio-stream = "*"
tower = "*"
tower-http = { version = "*", features = ["trace", "catch-panic", "timeout", "compression-gzip", "cors"] }
tracing = "*"
tracing-appender = "*"
tracing-opentelemetry = "*"
tracing-subscriber = { version = "*", features = ["env-filter"] }
