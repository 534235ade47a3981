[package]
name = "media_transfer"
version = "0.1.0"
edition = "2021"
publish = false

[dependencies]
kovi = "=0.12.7"
serde = { version = "=1.0.229", features = ["derive"] }
