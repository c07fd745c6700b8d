[package]
name = "lightspeed"
version = "0.1.0"
edition = "2021"
publish = false

[dependencies]
force_graph = "*"
glyphon = "*"
pollster = "*"
wgpu = "*"
winit = "*"
