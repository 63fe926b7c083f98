[package]
name = "herdr-agents-status"
version = "0.1.0"
edition = "2021"
publish = false

[dependencies]
eframe = { version = "0.29", default-features = false, features = ["glow", "x11", "default_fonts"] }
font-kit = "0.14"
libc = "0.2"
serde = { version = "1", features = ["derive"] }
serde_json = "1"
toml = "0.8"
x11-dl = "2"
