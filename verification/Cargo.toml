[package]
name = "julia_view"
version = "0.1.0"
edition = "2021"
publish = false

[dependencies]
rand = "0.8"
rayon = "1"
pixels = "0.13"
winit = "0.28"
