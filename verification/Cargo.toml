[package]
name = "riverbar"
version = "0.1.0"
edition = "2021"
publish = false

[dependencies]
libc = "*"
memmap2 = "*"
pangocairo = "*"
wayland-client = "*"
wayland-protocols-wlr = { version = "*", features = ["client"] }
