[package]
name = "ignite_proxy"
version = "0.1.0"
edition = "2021"
publish = false

[dependencies]
js-sys = "*"
serde = { version = "1", features = ["derive"] }
serde_json = "1"
worker = "*"
