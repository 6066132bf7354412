[package]
name = "firstset"
version = "0.1.0"
edition = "2021"
publish = false

[dependencies]
anyhow = "=1.0.104"
base64 = "=0.22.1"
serde = { version = "=1.0.229", features = ["derive"] }
toml = "=1.1.8"
eframe = { version = "=0.37.0", default-features = false, features = ["wgpu", "default_fonts", "x11"] }
