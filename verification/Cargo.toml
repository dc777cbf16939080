[package]
name = "vocab"
version = "0.1.0"
edition = "2021"
publish = false

[dependencies]
rand = "0.8"
rusqlite = "0.32"
serde = { version = "1", features = ["derive"] }
serde_json = "1"
egui = "0.29"
eframe = { version = "0.29", default-features = false, features = ["default_fonts", "glow", "x11"] }
