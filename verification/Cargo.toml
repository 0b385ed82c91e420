[package]
name = "wallity"
version = "0.1.0"
edition = "2021"
publish = false

[dependencies]
anyhow = "=1.0.104"
iced = { version = "=0.14.0", default-features = false, features = ["image-without-codecs", "thread-pool", "tiny-skia", "x11"] }
image = { version = "=0.25.10", default-features = false, features = ["png", "jpeg", "webp"] }
once_cell = "=1.21.4"
rayon = "=1.12.0"
resolve-path = "=0.1.0"
serde = { version = "=1.0.229", features = ["derive"] }
toml = "=0.8.23"
