[package]
name = "voxel_world"
version = "0.1.0"
edition = "2021"
publish = false

[dependencies]
bytemuck = { version = "1", features = ["derive"] }
cgmath = "0.17"
collision = "0.20"
crossbeam = "0.8"
image = { version = "0.24", default-features = false, features = ["png"] }
indoc = "1"
instant = "0.1"
noise = "0.8"
num-derive = "0.3"
num-traits = "0.2"
pollster = "0.2"
threadpool = "1.8"
wgpu = "0.14"
wgpu_glyph = "0.18"
winit = "0.27"
