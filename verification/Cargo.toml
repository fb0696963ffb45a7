[package]
name = "imgdedupe"
version = "0.1.0"
edition = "2021"
publish = false

[dependencies]
directories = "6"
eframe = { version = "=0.29.1", default-features = false, features = ["default_fonts", "glow", "x11"] }
egui = "=0.29.1"
fontdb = "=0.23.0"
image = { version = "0.25", default-features = false, features = ["png"] }
rfd = { version = "0.15", default-features = false, features = ["xdg-portal", "async-std"] }
ttf-parser = "=0.25.1"
