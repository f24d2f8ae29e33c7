[package]
name = "ascii_video"
version = "0.1.0"
edition = "2021"
publish = false

[dependencies]
anyhow = "1"
clap = { version = "4", features = ["derive"] }
crossterm = "0.26"
indicatif = "0.17"
opencv = "*"
terminal_size = "*"
