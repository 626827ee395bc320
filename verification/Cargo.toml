[package]
name = "minigui"
version = "0.1.0"
edition = "2021"
publish = false

[dependencies]
embedded-graphics = "*"
once_cell = "*"
button-driver = "*"
