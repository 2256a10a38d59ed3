[package]
name = "hippocampus"
version = "0.1.0"
edition = "2021"
publish = false

[dependencies]
anyhow = "1"
clap = { version = "4", features = ["derive"] }
pathdiff = "0.2"
serde = { version = "1", features = ["derive"] }
toml = "0.8"
