[package]
name = "keyremap"
version = "0.1.0"
edition = "2021"
publish = false

[dependencies]
chrono = "0.4"
timer = "0.2"
serde = { version = "1", features = ["derive"] }
toml = { version = "0.8", features = ["preserve_order"] }
evdev = "*"
uinput = "*"
