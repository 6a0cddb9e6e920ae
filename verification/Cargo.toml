[package]
name = "gitpkg"
version = "0.1.0"
edition = "2021"
publish = false

[dependencies]
md5 = "0.7"
chrono = "0.4"
clap = { version = "4", features = ["derive"] }
serde = { version = "1", features = ["derive"] }
serde_json = "1"
toml = "0.8"
