[package]
name = "no-sleep-till-done"
version = "0.1.0"
edition = "2021"
publish = false

[dependencies]
libc = "0.2"
serde = { version = "1", features = ["derive"] }
toml = "0.8"
toml_edit = "0.22"
tray-icon = "*"
winit = "0.30"
