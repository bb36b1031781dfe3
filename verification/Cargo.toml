[package]
name = "gemini"
version = "0.1.0"
edition = "2021"
publish = false

[dependencies]
rand = "0.8"
winit = "0.29"
pixels = "*"
tiny-skia = "0.11"
ab_glyph = "0.2"
