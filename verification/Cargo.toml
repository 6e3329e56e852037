[package]
name = "govee"
version = "0.1.0"
edition = "2021"
publish = false

[dependencies]
base64 = "=0.22.1"
colored = "=3.1.1"
rand = "=0.10.3"
serde = { version = "=1.0.229", features = ["derive"] }
serde_json = "=1.0.154"
toml = "=1.1.8"
clap = { version = "=4.6.7", features = ["derive"] }
chrono = "=0.4.45"
sunrise = "=3.0.0"
dirs = "=7.0.0"
socket2 = { version = "=0.5.10", features = ["all"] }
ctrlc = "=3.5.2"
anyhow = "=1.0.104"
inotify = "=0.11.5"
nix = { version = "=0.29.0", features = ["fs", "mman", "poll"] }
wayland-client = "0.31"
wayland-protocols-wlr = { version = "0.3", features = ["client"] }
libpulse-binding = "2"
rustfft = "6"
bytemuck = "1"
