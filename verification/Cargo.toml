[package]
name = "circle_mosaic"
version = "0.1.0"
edition = "2021"
publish = false

[dependencies]
rand = "0.9"
image = { version = "0.25", default-features = false, features = ["png"] }
gif = "0.13"
noisy_float = "0.2"
