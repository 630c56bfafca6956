[package]
name = "transpose_bench"
version = "0.1.0"
edition = "2021"
publish = false

[dependencies]
anyhow = "*"
clap = { version = "*", features = ["derive"] }
inline_colorization = "*"
memmap = "*"
rayon = "*"
size = "*"
