[package]
name = "cedar_bench"
version = "0.1.0"
edition = "2021"
publish = false

[dependencies]
cedar-policy = "4"
chrono = "0.4"
clap = { version = "4", features = ["derive"] }
serde = { version = "1", features = ["derive"] }
serde_json = "1"
