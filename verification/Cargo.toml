[package]
name = "game_core"
version = "0.1.0"
edition = "2021"
publish = false

[dependencies]
serde_json = "1"
eframe = { version = "0.29", default-features = false, features = ["default_fonts", "glow", "x11"] }
