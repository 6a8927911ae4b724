[package]
name = "websub"
version = "0.1.0"
edition = "2021"
publish = false

[dependencies]
time = { version = "0.3", features = ["parsing"] }
serde = { version = "1", features = ["derive"] }
toml = "*"
