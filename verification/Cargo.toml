[package]
name = "satur8"
version = "0.2.2"
edition = "2021"
publish = false

[dependencies]
anyhow = "1"
clap = { version = "4", features = ["derive"] }
drm = "*"
libc = "0.2"
serde = { version = "1", features = ["derive"] }
signal-hook = "0.3"
toml = "0.8"
zbus = "5"
