[package]
name = "corona"
version = "0.1.0"
edition = "2021"
publish = false

[dependencies]
anyhow = "1"
bitflags = "2"
calloop = "*"
dashmap = "6"
dirs = "*"
flume = "*"
freedesktop-desktop-entry = "*"
freedesktop-icons = "*"
hyprland = "*"
notify = "*"
pipewire = "*"
schemars = "*"
serde = { version = "1", features = ["derive"] }
serde_json = "1"
thiserror = "*"
tracing = "*"
tracing-subscriber = "*"
ts-rs = "*"
zbus = "*"
