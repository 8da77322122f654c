[package]
name = "frame_lifecycle"
version = "0.1.0"
edition = "2021"
publish = false

[dependencies]
eframe = { version = "=0.24.1", default-features = false, features = ["glow", "persistence", "x11"] }
egui = { version = "=0.24.1", default-features = false }
serde = { version = "=1.0.229", features = ["derive"] }
web-time = "=0.2.4"
