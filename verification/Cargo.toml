[package]
name = "pengui"
version = "0.1.0"
edition = "2021"
publish = false

[dependencies]
glium = "0.29"
nalgebra = "0.23"
rusttype = { version = "0.9", features = ["gpu_cache"] }
