[package]
name = "rendercore"
version = "0.1.0"
edition = "2021"
publish = false

[dependencies]
glam = "*"
tinyjson = "*"
fontdue = "*"
bytemuck = "*"
image = { version = "*", default-features = false, features = ["png", "jpeg"] }
