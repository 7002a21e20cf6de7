[package]
name = "sfu"
version = "0.1.0"
edition = "2021"
publish = false

[dependencies]
janus-plugin = "=0.12.0"
once_cell = "=1.21.4"
serde = { version = "=1.0.229", features = ["derive"] }
serde_json = "=1.0.154"
