[package]
name = "correct_bar"
version = "0.1.0"
edition = "2021"
publish = false

[dependencies]
chrono = "=0.4.45"
crossbeam-channel = "=0.5.17"
libc = "=0.2.190"
parking_lot = "=0.12.5"
rusttype = "*"
serde = { version = "=1.0.229", features = ["derive"] }
serde_json = "=1.0.151"
wayland-client = "=0.31.15"
wayland-backend = "=0.3.17"
wayland-protocols = { version = "=0.32.13", features = ["client", "staging"] }
wayland-protocols-wlr = { version = "=0.3.12", features = ["client"] }
