[package]
name = "config_struct"
version = "0.5.0"
edition = "2021"
publish = false

[dependencies]
case = "1.0"
linear-map = { version = "1.2", features = ["serde_impl"] }
ron = "0.5"
serde_json = "1.0"
serde_yaml = "0.8"
toml = "0.5"
