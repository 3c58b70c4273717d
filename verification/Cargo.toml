[package]
name = "reims_vgpu"
version = "0.1.0"
edition = "2021"
publish = false

[dependencies]
ash = { version = "0.38", default-features = false }
metal2vulkan = "*"
parking_lot = "0.12"
