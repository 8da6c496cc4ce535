[package]
name = "nova"
version = "0.1.0"
edition = "2021"
publish = false

[dependencies]
unicode-width = "0.2"
serde = { version = "1", features = ["derive"] }
toml = "0.8"
serde_ignored = "0.1"
thiserror = "2"
wait-timeout = "0.2"
