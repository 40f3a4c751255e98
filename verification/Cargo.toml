[package]
name = "qdrant_datafusion"
version = "0.1.1"
edition = "2021"
publish = false

[dependencies]
datafusion = { version = "50", default-features = false }
qdrant-client = { version = "1.15", default-features = false, features = ["serde"] }
serde_json = "1"
