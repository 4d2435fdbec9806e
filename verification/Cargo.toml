[package]
name = "sidecar_core"
version = "0.1.0"
edition = "2021"
publish = false

[dependencies]
arboard = "*"
image = "*"
serde = { version = "*", features = ["derive"] }
