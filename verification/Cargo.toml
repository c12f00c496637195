[package]
name = "nvgx"
version = "0.1.0"
edition = "2021"
publish = false

[dependencies]
slab = "=0.4.12"
anyhow = "=1.0.104"
bytemuck = { version = "=1.25.2", features = ["derive"] }
clamped = "=1.0.0"
num-traits = "=0.2.19"
indexmap = "=2.14.2"
wgpu = "=24.0.5"
