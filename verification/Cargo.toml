[package]
name = "galaxy_3d_engine"
version = "0.1.0"
edition = "2021"
publish = false

[dependencies]
slotmap = "1"
rustc-hash = "*"
glam = "*"
chrono = "0.4"
colored = "*"
bytemuck = "1"
