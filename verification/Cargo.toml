[package]
name = "mve_transport"
version = "0.1.0"
edition = "2021"
publish = false

[dependencies]
bincode = "1.3"
core-error = "*"
futures = "0.3"
piper = "0.1"
serde = { version = "1", features = ["derive"] }
