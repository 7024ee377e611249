[package]
name = "gm8emulator"
version = "0.1.0"
edition = "2021"
publish = false

[dependencies]
byteorder = "1"
rect_packer = "*"
serde = { version = "1", features = ["derive"] }
memoffset = "*"
clipboard = "*"
ramen = "*"
