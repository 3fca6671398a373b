[package]
name = "promptize"
version = "0.1.0"
edition = "2021"
publish = false

[dependencies]
tiktoken-rs = "*"

[dev-dependencies]
serde_json = "*"
