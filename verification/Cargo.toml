[package]
name = "cursor_shims"
version = "0.1.0"
edition = "2021"
publish = false

[dependencies]
atty = "0.2"
chrono = "0.4"
rand = "0.8"
