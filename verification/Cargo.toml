[package]
name = "widget_identity_creator"
version = "0.1.0"
edition = "2021"
publish = false

[dependencies]
serde_json = "1"
serde = { version = "1", features = ["derive"] }
regex = "1"
reqwest = { version = "*", default-features = false, features = ["blocking", "json"] }
eframe = { version = "*", default-features = false, features = ["glow", "default_fonts", "x11"] }
