[package]
name = "quickbar"
version = "0.1.0"
edition = "2021"
publish = false

[dependencies]
calloop = "*"
cosmic-text = "*"
serde = { version = "1", features = ["derive"] }
serde_json = "1"
smithay-client-toolkit = { version = "*", default-features = false, features = ["calloop"] }
tiny-skia = "*"
toml = "*"
wayland-client = "*"
