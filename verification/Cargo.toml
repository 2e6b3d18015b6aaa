[package]
name = "grid_puzzle"
version = "0.1.0"
edition = "2021"
publish = false

[dependencies]
image = { version = "0.25", default-features = false, features = ["png"] }
rand = "0.8"
winit = { version = "0.30", default-features = false, features = ["x11", "rwh_06"] }
