[package]
name = "life_the_game"
version = "0.1.0"
edition = "2021"
publish = false

[dependencies]
crossterm = "*"
