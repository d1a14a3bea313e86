[package]
name = "espanso_helper"
version = "0.1.0"
edition = "2021"
publish = false

[dependencies]
dirs = "5"
eframe = { version = "0.23", default-features = false, features = ["default_fonts", "glow"] }
egui_extras = { version = "0.23", default-features = false }
env_logger = { version = "0.10", default-features = false }
winapi = { version = "0.3", features = ["wincon", "winuser"] }
