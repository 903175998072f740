[package]
name = "termgol"
version = "0.1.0"
edition = "2021"
publish = false

[dependencies]
nanorand = "*"
term2d = "*"
clap = { version = "*", features = ["derive"] }
