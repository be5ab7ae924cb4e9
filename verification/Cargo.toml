[package]
name = "asciicam"
version = "0.1.0"
edition = "2021"
publish = false

[dependencies]
anyhow = "1"
image = { version = "0.25", default-features = false, features = ["jpeg", "png"] }
rusttype = "0.9"
v4l = "0.14"
