[package]
name = "asteroid_dodge"
version = "0.1.0"
edition = "2021"
publish = false

[dependencies]
tiny-game-framework = "*"
