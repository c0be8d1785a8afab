[package]
name = "snake_game"
version = "0.1.0"
edition = "2021"
publish = false

[dependencies]
rand = "0.7"
serde_json = "1"
piston = "*"
piston_window = "*"
