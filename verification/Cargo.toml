[package]
name = "opvm2"
version = "0.1.0"
edition = "2021"
publish = false

[dependencies]
extism = "*"
clap = { version = "*", features = ["derive"] }
lz4 = "*"
serde = { version = "*", features = ["derive"] }
serde_json = "*"
