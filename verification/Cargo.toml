[package]
name = "kessler"
version = "0.1.0"
edition = "2021"
publish = false

[dependencies]
rand = "0.8"
x11rb = { version = "0.13", features = ["image"] }
