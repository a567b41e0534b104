[package]
name = "sector_engine"
version = "0.1.0"
edition = "2021"
publish = false

[dependencies]
bytemuck = "=1.25.2"
env_logger = "=0.9.3"
glam = "=0.20.5"
glfw = { version = "=0.44.0", default-features = false }
pollster = "=0.2.5"
rapier3d = "=0.11.3"
wgpu = "=0.12.0"
