[package]
name = "cpu_limiter"
version = "0.1.0"
edition = "2021"
publish = false

[dependencies]
eframe = { version = "0.31", default-features = false, features = ["default_fonts", "glow"] }
env_logger = { version = "=0.11.11", default-features = false }
image = { version = "*", default-features = false, features = ["png"] }
nix = { version = "=0.31.3", features = ["signal"] }
parking_lot = "=0.13.0"
sysinfo = { version = "=0.39.6", default-features = false, features = ["system"] }
tray-icon = "*"
