[package]
name = "skeleton"
version = "0.1.0"
edition = "2021"
publish = false

[dependencies]
anyhow = "1.0"
bytemuck = { version = "1.12", features = ["derive"] }
cfg-if = "1"
cgmath = "0.18"
env_logger = "0.10"
image = { version = "0.24", default-features = false, features = ["png", "jpeg"] }
instant = "0.1"
log = "0.4"
pollster = "0.3"
tobj = { version = "3.2", features = ["async"] }
wgpu = "0.15"
winit = { version = "0.28", default-features = false, features = ["x11"] }
