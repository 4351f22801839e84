[package]
name = "psp_textures"
version = "0.1.0"
edition = "2021"
publish = false

[dependencies]
aligned-vec = "*"
bevy_ecs = "*"
hashbrown = "*"
minipng = "*"
psp = "*"
spin = "*"
