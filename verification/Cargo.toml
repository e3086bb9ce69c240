[package]
name = "webusb"
version = "0.1.0"
edition = "2021"
publish = false

[dependencies]
rusb = "*"
libusb1-sys = "*"
serde = { version = "*", features = ["derive"] }
serde_json = "*"
