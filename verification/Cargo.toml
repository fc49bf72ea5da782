[package]
name = "shelvd"
version = "0.1.0"
edition = "2021"
publish = false

[dependencies]
alacritty_terminal = "=0.26.0"
anyhow = "=1.0.104"
arboard = { version = "=3.7.0", default-features = false, features = ["wayland-data-control"] }
bytemuck = { version = "=1.25.2", features = ["derive"] }
dirs = "=7.0.0"
env_logger = { version = "=0.11.11", default-features = false }
flume = "=0.12.0"
glyphon = "=0.12.0"
log = "=0.4.35"
nix = { version = "=0.28.0", features = ["term"] }
nucleo-matcher = "=0.3.1"
pollster = "=1.0.1"
portable-pty = "=0.9.0"
raw-window-handle = "=0.6.2"
serde = { version = "=1.0.229", features = ["derive"] }
thiserror = "=2.0.21"
toml = "=1.1.8"
unicode-width = "=0.2.3"
wgpu = "=30.0.1"
winit = "=0.30.13"
