[package]
name = "folsum"
version = "2.0.0"
edition = "2021"
publish = false

[dependencies]
anyhow = "=1.0.104"
chrono = "=0.4.45"
dirs = "=7.0.0"
eframe = { version = "=0.31.1", default-features = false, features = ["default_fonts", "glow", "persistence", "x11"] }
egui = "=0.31.1"
egui_extras = "=0.31.1"
fern = { version = "=0.7.1", features = ["colored"] }
humantime = "=2.4.0"
itertools = "=0.15.0"
log = "=0.4.34"
md5 = "=0.8.1"
rfd = { version = "=0.15.4", default-features = false, features = ["xdg-portal", "tokio"] }
serde = { version = "=1.0.229", features = ["derive"] }
walkdir = "=2.5.0"

[dev-dependencies]
rand = "=0.9.5"
