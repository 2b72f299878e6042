[package]
name = "chess_link"
version = "0.1.0"
edition = "2021"
publish = false

[dependencies]
chess = "=3.2.0"

[dev-dependencies]
serde_json = "=1.0.151"
