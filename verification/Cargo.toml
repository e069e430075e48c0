[package]
name = "voxel_mesher"
version = "0.1.0"
edition = "2021"
publish = false

[dependencies]
block-mesh = "0.2"
bevy = { version = "0.7", default-features = false, features = ["render", "png", "bevy_winit", "x11"] }
