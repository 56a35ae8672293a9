[package]
name = "fontworld"
version = "0.1.0"
edition = "2021"
publish = false

[dependencies]
rustybuzz = "*"
ttf-parser = "*"
serde = { version = "*", features = ["derive"] }
