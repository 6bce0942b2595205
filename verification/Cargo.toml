[package]
name = "chicken"
version = "0.1.0"
edition = "2021"
publish = false

[dependencies]
html-escape = "*"
clap = { version = "*", features = ["derive"] }
colored = "*"
