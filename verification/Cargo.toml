[package]
name = "yaml_bridge"
version = "0.1.0"
edition = "2021"
publish = false

[dependencies]
libc = "0.2"
serde = "1"
serde_json = { version = "1", features = ["preserve_order"] }
serde_yaml = "0.9"
