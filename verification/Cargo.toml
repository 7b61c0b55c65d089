[package]
name = "doomrs"
version = "0.1.0"
edition = "2021"
publish = false

[dependencies]
rand = "*"
regex = "*"
clap = { version = "*", features = ["derive"] }
sdl2 = "*"
serde = { version = "*", features = ["derive"] }
serde_json = "*"
