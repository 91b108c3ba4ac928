[package]
name = "main_game_loop"
version = "0.1.0"
edition = "2021"
publish = false

[dependencies]
instant = "0.1"
winit = "0.28"
gilrs = "0.10"
glam = "0.24"
log = "0.4"
