[package]
name = "smq_engine"
version = "0.1.0"
edition = "2021"
publish = false

[dependencies]
naga = { version = "*", features = ["wgsl-in"] }
serde = { version = "1", features = ["derive"] }
serde_json = "1"
walkdir = "2"
gltf = "1"
bytemuck = "1"
log = "0.4"
env_logger = "*"
