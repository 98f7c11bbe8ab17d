[package]
name = "physics_sim"
version = "0.1.0"
edition = "2021"
publish = false

[dependencies]
macroquad = "*"
egui-macroquad = "*"
env_logger = "*"
