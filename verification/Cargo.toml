[package]
name = "skyterm"
version = "0.1.6"
edition = "2021"
publish = false

[dependencies]
anyhow = "1"
async-channel = "2"
bytemuck = "1"
env_logger = "0.11"
freetype-rs = "0.36"
glow = "0.14"
gtk4 = { version = "0.9", features = ["v4_12"] }
libloading = "0.8"
log = "0.4"
portable-pty = "0.8"
serde = { version = "1", features = ["derive"] }
toml = "0.8"
vte = "0.15"
