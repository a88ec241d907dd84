[package]
name = "toml_rs_decoder"
version = "0.1.0"
edition = "2021"
publish = false

[dependencies]
toml = { version = "=1.1.7", features = ["preserve_order"] }
serde_json = { version = "=1.0.151", features = ["preserve_order"] }
