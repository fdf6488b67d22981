[package]
name = "term_explorer"
version = "0.1.0"
edition = "2021"
publish = false

[dependencies]
chrono = "*"
portable-pty = "*"
walkdir = "*"
dirs = "*"
egui = "*"
eframe = { version = "*", default-features = false, features = ["glow", "x11"] }
