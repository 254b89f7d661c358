[package]
name = "voxl"
version = "0.1.0"
edition = "2021"
publish = false

[dependencies]
serde = { version = "=1.0.229", features = ["derive"] }
ron = "=0.8.1"
toml = "=0.8.23"
glam = "=0.29.3"
noise = "=0.9.0"
winit = { version = "=0.30.13", default-features = false, features = ["x11", "rwh_06"] }
image = { version = "0.25", default-features = false, features = ["png"] }
