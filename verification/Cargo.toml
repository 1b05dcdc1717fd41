[package]
name = "mpv_rc"
version = "0.1.0"
edition = "2021"
publish = false

[dependencies]
rand = "0.8"
interprocess = "2"
confy = "*"
serde = { version = "1", features = ["derive"] }
eframe = { version = "*", default-features = false, features = ["glow", "x11", "wayland"] }
egui = "*"
winapi = { version = "0.3", features = ["commdlg", "minwindef"] }

[dev-dependencies]
serde_json = "1"
