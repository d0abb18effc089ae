[package]
name = "particles"
version = "0.1.0"
edition = "2021"
publish = false

[dependencies]
num = "0.4"
rand = "0.7"
rayon = "1"
sdl2 = { version = "*", features = ["gfx", "image", "ttf"] }
