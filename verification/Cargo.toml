[package]
name = "mandelbrot"
version = "0.1.0"
edition = "2021"
publish = false

[dependencies]
num = "0.4"
image = { version = "*", default-features = false, features = ["png"] }
clap = { version = "4", features = ["derive"] }
