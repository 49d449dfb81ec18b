[package]
name = "lemon_colonies_client"
version = "0.1.0"
edition = "2021"
publish = false

[dependencies]
anyhow = "1"
egui-macroquad = "*"
egui-notify = "*"
egui-phosphor = "*"
heck = "0.5"
image = { version = "*", default-features = false, features = ["png"] }
miniquad = "*"
quad-net = "*"
rust-i18n = "3"
serde = { version = "1", features = ["derive"] }
serde_json = "1"
strum = { version = "*", features = ["derive"] }
strum_macros = "*"
