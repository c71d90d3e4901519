[package]
name = "lightmap2d"
version = "0.1.0"
edition = "2021"
publish = false

[dependencies]
wgpu = "0.15"
image = "0.24"
bytemuck = "1"
futures = "0.3"
futures-intrusive = "0.5"
