[package]
name = "cmem"
version = "0.1.0"
edition = "2021"
publish = false

[dependencies]
uuid = "1"
unicode-normalization = "0.1"
serde_json = "1"
serde = { version = "1", features = ["derive"] }
chrono = "0.4"
