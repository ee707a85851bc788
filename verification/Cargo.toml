[package]
name = "render_core"
version = "0.1.0"
edition = "2021"
publish = false

[dependencies]
bytemuck = "1"
cgmath = "0.17"
glsl-to-spirv = "0.1"
wgpu = "0.6"
