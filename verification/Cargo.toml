[package]
name = "screen_13"
version = "0.1.0"
edition = "2021"
publish = false

[dependencies]
ash = "0.37"
derive_builder = "0.12"
gfx-backend-vulkan = { version = "0.5", default-features = false }
gfx-hal = "0.5"
log = "0.4"
num-format = "0.4"
winit = "0.22"
