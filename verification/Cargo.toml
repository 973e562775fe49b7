[package]
name = "voxel_view"
version = "0.1.0"
edition = "2021"
publish = false

[dependencies]
ahash = "0.8"
bytemuck = { version = "1", features = ["derive"] }
glam = "0.29"
glyphon = "0.7"
log = "0.4"
serde = { version = "1", features = ["derive"] }
serde_json = "1"
wgpu = "23"
