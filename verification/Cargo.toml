[package]
name = "mandelbrot"
version = "0.1.0"
edition = "2021"
publish = false

[dependencies]
ggez = "0.5"
lazy_static = "1"
num-complex = "0.2"
palette = "0.5"
structopt = "0.2"
