[package]
name = "try-rs"
version = "0.1.0"
edition = "2021"
publish = false

[dependencies]
unicode-width = "0.2"
regex = "1"
chrono = "0.4"
rand = "0.8"
crossterm = "0.28"
atty = "0.2"
