[package]
name = "pixelstream"
version = "0.1.0"
edition = "2021"
publish = false

[dependencies]
bincode = "0.9"
bufstream = "0.1"
image = { version = "0.25", default-features = false }

[dev-dependencies]
rand = "0.8"
