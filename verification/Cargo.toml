[package]
name = "span_filter"
version = "0.1.0"
edition = "2021"
publish = false

[dependencies]
ipnetwork = "0.20"
rand = "0.8"
tracing = "0.1"
tracing-subscriber = { version = "0.3", features = ["env-filter"] }
