[package]
name = "raytracer"
version = "0.1.0"
edition = "2021"
publish = false

[dependencies]
glam = "*"
rand = "0.9"
pixels = "*"
winit = "0.29"
