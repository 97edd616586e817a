[package]
name = "sluice"
version = "0.1.2"
edition = "2021"
publish = false

[dependencies]
abpl = { version = "=0.1.6", features = ["app", "http"] }
axum = "=0.8.9"
const_format = "=0.2.37"
email_address = "=0.2.9"
lazy-regex = "=3.6.2"
serde = { version = "=1.0.229", features = ["derive"] }
serde_with = "=3.24.0"
tracing = "=0.1.44"
tracing-subscriber = { version = "=0.3.23", features = ["env-filter"] }
