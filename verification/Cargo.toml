[package]
name = "chess"
version = "0.1.0"
edition = "2021"
publish = false

[dependencies]
iced = { version = "0.3", default-features = false, features = ["wgpu", "image"] }
