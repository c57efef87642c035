[package]
name = "yasa"
version = "0.1.0"
edition = "2021"
publish = false

[dependencies]
image = { version = "=0.24.9", default-features = false, features = ["png", "jpeg", "gif"] }
imageproc = { version = "=0.23.1", default-features = false }
chrono = { version = "=0.4.45", default-features = false, features = ["clock"] }
egui = "=0.22.0"
eframe = { version = "=0.22.0", default-features = false, features = ["glow", "default_fonts"] }
egui_extras = "=0.22.0"
egui-modal = "=0.2.4"
egui-toast = "=0.8.1"
arboard = "=3.7.0"
