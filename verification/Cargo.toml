[package]
name = "raytracing"
version = "0.1.0"
edition = "2021"
publish = false

[dependencies]
wgpu = "*"
futures-intrusive = "*"
image = "*"
async-std = { version = "*", features = ["attributes"] }
