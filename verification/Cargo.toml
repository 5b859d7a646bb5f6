[package]
name = "shadow_icon_factory"
version = "0.1.0"
edition = "2021"
publish = false

[dependencies]
image = { version = "0.25", default-features = false, features = ["png", "jpeg", "webp"] }
ico = "*"
dirs = "*"
which = "*"
serde = { version = "1", features = ["derive"] }
serde_json = "1"
gtk4 = "*"
libadwaita = "*"
