[package]
name = "scanner_core"
version = "0.1.0"
edition = "2021"
publish = false

[dependencies]
serde_yaml = "0.9"
sys-locale = "0.3"
uuid = { version = "1", features = ["v4", "serde"] }
serde = { version = "1", features = ["derive"] }
serde_json = "1"
thiserror = "2"
anyhow = "1"
clap = { version = "4", features = ["derive"] }
dirs = "6"
eframe = { version = "0.36", default-features = false, features = ["default_fonts", "glow", "x11"] }
image = { version = "0.25", default-features = false, features = ["png", "jpeg", "bmp", "tiff"] }
rfd = { version = "0.17", default-features = false, features = ["gtk3"] }
tracing = "0.1"
tracing-appender = "0.2"
tracing-subscriber = "0.3"
