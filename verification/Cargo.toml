[package]
name = "sapio"
version = "0.1.0"
edition = "2021"
publish = false

[dependencies]
bitcoin = "0.26"
serde = { version = "1", features = ["derive"] }
schemars = "0.8"
