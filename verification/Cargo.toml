[package]
name = "vpinball-bevy"
version = "0.1.0"
edition = "2021"
publish = false

[dependencies]
vpin = "0.28"
