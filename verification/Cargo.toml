[package]
name = "screenshot-dai"
version = "0.1.0"
edition = "2021"
publish = false

[dependencies]
ab_glyph = "0.2"
anyhow = "1"
arboard = { version = "3", default-features = false, features = ["image-data"] }
directories = "6"
eframe = { version = "0.34", default-features = false, features = ["default_fonts", "glow", "x11"] }
egui = { version = "0.34", default-features = false, features = ["default_fonts"] }
global-hotkey = "0.7"
image = { version = "0.25", default-features = false, features = ["png"] }
rfd = "0.17"
serde = { version = "1", features = ["derive"] }
serde_json = "1"
tracing = "0.1"
tracing-subscriber = { version = "0.3", features = ["env-filter"] }
windows = { version = "0.62", features = ["Win32_Foundation", "Win32_UI_WindowsAndMessaging"] }
