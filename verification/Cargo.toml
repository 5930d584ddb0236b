[package]
name = "zhuanzhuan"
version = "0.1.0"
edition = "2021"
publish = false

[dependencies]
image = { version = "0.25", default-features = false, features = ["png"] }
eframe = { version = "0.31", default-features = false, features = ["glow", "default_fonts", "x11"] }
tray-icon = "0.19"
auto-launch = "0.5"
