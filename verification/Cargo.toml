[package]
name = "space_manager"
version = "0.1.0"
edition = "2021"
publish = false

[dependencies]
anyhow = "1"
async-channel = "2"
evdev = "0.12"
glib = "0.20"
gtk4 = "0.9"
gtk4-layer-shell = "0.5"
hyprland = "0.4.0-beta.3"
serde = { version = "1", features = ["derive"] }
serde_json = "1"
tokio = { version = "1", features = ["full"] }
tracing = "0.1"
tracing-appender = "0.2"
tracing-subscriber = { version = "0.3", features = ["env-filter"] }
