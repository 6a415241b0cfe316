[package]
name = "kvmshare"
version = "0.1.0"
edition = "2021"
publish = false

[dependencies]
fs2 = "0.4"
getrandom = "0.2"
serde = { version = "1", features = ["derive"] }
serde_json = "1"
toml = "0.8"
