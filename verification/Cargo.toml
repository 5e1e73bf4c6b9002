[package]
name = "harness_terminal"
version = "0.1.0"
edition = "2021"
publish = false

[dependencies]
ab_glyph = "0.2"
alacritty_terminal = "0.25"
arboard = { version = "3", default-features = false }
softbuffer = "0.4"
winit = "0.30"
