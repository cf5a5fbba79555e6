[package]
name = "dino_media"
version = "0.1.0"
edition = "2021"
publish = false

[dependencies]
eframe = { version = "0.31", default-features = false, features = ["default_fonts", "glow", "x11"] }
ffmpeg-next = "*"
flutter_rust_bridge = { version = "2", default-features = false }
image = { version = "0.25", default-features = false, features = ["png"] }
rfd = { version = "0.15", default-features = false, features = ["xdg-portal", "tokio"] }
