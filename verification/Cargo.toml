[package]
name = "sone-papdi"
version = "0.1.0"
edition = "2021"
publish = false

[dependencies]
blake3 = { version = "1", features = ["pure"] }
infer = "0.16"
serde = { version = "1", features = ["derive"] }
serde_json = "1"
toml = "0.8"
rusqlite = { version = "0.32", features = ["bundled"] }
chrono = "0.4"
anyhow = "1"
tokio = { version = "1", features = ["full"] }
freedesktop-desktop-entry = "0.7"
dirs-next = "2"
libc = "0.2"
tracing = "0.1"
tracing-subscriber = { version = "0.3", features = ["env-filter"] }
notify = "6"
futures = "0.3"
tokio-stream = "0.1"
parking_lot = "0.12"
clap = { version = "4", features = ["derive"] }
wayland-client = "0.31"
wayland-protocols-wlr = { version = "0.3", features = ["client"] }
zbus = "5"
