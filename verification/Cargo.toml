[package]
name = "raytracer"
version = "0.1.0"
edition = "2021"
publish = false

[dependencies]
image = { version = "0.23", default-features = false, features = ["png"] }
itertools = "0.8"
palette = "0.5"
rayon = "1"
time = "0.1"
