[package]
name = "clipboard_hud"
version = "0.1.0"
edition = "2021"
publish = false

[dependencies]
objc2 = "*"
objc2-foundation = "*"
