[package]
name = "sourdough_timer"
version = "0.1.0"
edition = "2021"
publish = false

[dependencies]
eframe = { version = "0.21", default-features = false, features = ["default_fonts", "glow"] }
rodio = { version = "0.17", default-features = false, features = ["wav"] }
tracing-subscriber = "0.3"
