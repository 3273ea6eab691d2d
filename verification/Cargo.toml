[package]
name = "voxel_terrain"
version = "0.1.0"
edition = "2021"
publish = false

[dependencies]
dashmap = "5"
noise = { version = "0.8", default-features = false }
