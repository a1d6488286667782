[package]
name = "termion_core"
version = "0.1.0"
edition = "2021"
publish = false

[dependencies]
nix = { version = "0.29", features = ["fs", "process", "term"] }
eframe = { version = "0.29", default-features = false, features = ["default_fonts", "glow", "x11"] }
