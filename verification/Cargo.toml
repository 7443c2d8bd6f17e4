[package]
name = "vmesh"
version = "0.1.0"
edition = "2021"
publish = false

[dependencies]
glam = "*"
gltf = { version = "*", default-features = false, features = ["utils", "names"] }
binrw = "*"
