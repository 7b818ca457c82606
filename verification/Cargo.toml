[package]
name = "viontin_gems"
version = "0.1.0"
edition = "2021"
publish = false

[dependencies]
serde = { version = "1", features = ["derive"] }
serde_json = "1"
toml = "*"
glob = "*"
tailwind-rs-core = "*"
tao = "*"
wry = "*"
