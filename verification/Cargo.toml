[package]
name = "interpolate"
version = "0.1.0"
edition = "2021"
publish = false

[dependencies]
serde = { version = "1", features = ["derive"] }
serde_json = "1"
ksni = { version = "0.3", features = ["blocking"] }
