[package]
name = "eventline"
version = "0.9.0"
edition = "2021"
publish = false

[dependencies]
serde = { version = "=1.0.229", features = ["derive"] }
serde_json = "=1.0.154"
time = { version = "=0.3.55", features = ["local-offset"] }
parking_lot = "=0.12.5"
chrono = "=0.4.45"
tracing = "=0.1.44"
tracing-subscriber = "=0.3.23"
futures = "=0.3.34"
tokio = { version = "=1.54.1", features = ["rt", "macros", "sync"] }
log = "=0.4.35"
