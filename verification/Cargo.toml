[package]
name = "renderer3d"
version = "0.1.0"
edition = "2021"
publish = false

[dependencies]
rand = "*"
sdl2 = "*"
image = { version = "*", default-features = false, features = ["jpeg", "png"] }
