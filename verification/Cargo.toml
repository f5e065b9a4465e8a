[package]
name = "typegin_core"
version = "0.1.0"
edition = "2021"
publish = false

[dependencies]
serde = { version = "1", features = ["derive"] }
serde_yaml_ng = "*"
env_logger = "*"
