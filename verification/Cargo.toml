[package]
name = "procedural-city-gen"
version = "0.1.0"
edition = "2021"
publish = false

[dependencies]
bevy = { version = "0.17", default-features = false, features = ["bevy_pbr"] }
rand = "0.10"
spade = "2"
delaunator = "1"
