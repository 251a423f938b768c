[package]
name = "toml_describe"
version = "0.1.0"
edition = "2021"
publish = false

[dependencies]
cfg-expr = "0.15"
semver = { version = "1", features = ["serde"] }
serde = { version = "1", features = ["derive"] }
toml = "0.8"
