[package]
name = "chip8"
version = "0.1.0"
edition = "2021"
publish = false

[dependencies]
anyhow = "1"
clap = { version = "4", features = ["derive"] }
rand = "0.8"
rand_chacha = "0.3"
sdl2 = "0.35"
