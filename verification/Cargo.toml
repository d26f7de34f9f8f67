[package]
name = "rs-postgres-stat2otel"
version = "0.1.0"
edition = "2021"
publish = false

[dependencies]
opentelemetry = { version = "0.18", features = ["metrics"] }
serde = { version = "1", features = ["derive"] }
toml = "0.5"
