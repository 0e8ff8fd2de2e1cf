[package]
name = "veryl"
version = "0.1.0"
edition = "2021"
publish = false

[dependencies]
regex = "*"
spdx = "*"
serde = { version = "*", features = ["derive"] }
serde_json = "*"
toml = "*"
semver = { version = "*", features = ["serde"] }
url = { version = "*", features = ["serde"] }
