[package]
name = "quizzical"
version = "0.1.0"
edition = "2021"
publish = false

[dependencies]
postgres = "*"
serde = { version = "*", features = ["derive"] }
serde_derive = "*"
serde_json = "*"
http = "*"
log = "*"
simple_logger = "*"
