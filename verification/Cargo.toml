[package]
name = "framebuffer"
version = "0.1.0"
edition = "2021"
publish = false

[dependencies]
volatile = "0.2"
spin = "*"
lazy_static = "*"
bootloader = "0.9"
