[package]
name = "gluqlo"
version = "0.1.0"
edition = "2021"
publish = false

[dependencies]
time = "0.1"
sdl2 = { version = "*", features = ["gfx", "ttf"] }
structopt = "*"
