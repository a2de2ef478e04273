[package]
name = "ragfs"
version = "0.1.0"
edition = "2021"
publish = false

[dependencies]
arrow-schema = "*"
chrono = { version = "0.4", features = ["serde"] }
serde = { version = "1", features = ["derive"] }
tokio = { version = "1", features = ["sync", "rt", "macros"] }
async-trait = "0.1"
tracing = "0.1"
uuid = { version = "1", features = ["v4", "serde"] }
