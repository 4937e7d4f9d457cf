[package]
name = "build_bridge"
version = "0.1.0"
edition = "2021"
publish = false

[dependencies]
chrono = "=0.4.45"
qrcode = { version = "=0.14.1", default-features = false }
serde = { version = "=1.0.229", features = ["derive"] }
serde_json = "=1.0.154"
directories = "=6.0.0"
tiny_http = "=0.12.0"
eframe = { version = "=0.33.3", default-features = false, features = ["default_fonts", "glow", "x11"] }
egui = "=0.33.3"
egui_extras = { version = "=0.33.3", default-features = false, features = ["svg", "image"] }
image = { version = "=0.25.10", default-features = false, features = ["ico", "png"] }
rfd = { version = "=0.17.2", default-features = false, features = ["xdg-portal"] }
window-vibrancy = "=0.8.1"
