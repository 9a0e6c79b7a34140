[package]
name = "scene_split"
version = "0.1.0"
edition = "2021"
publish = false

[dependencies]
clap = "2"
tui = "0.19"
dssim-core = "3"
image = { version = "0.24", default-features = false, features = ["png"] }
imgref = "1"
rgb = "0.8"
