[package]
name = "sftool-gui"
version = "0.1.0"
edition = "2021"
publish = false

[dependencies]
sftool-lib = "*"
serialport = "*"
serde = { version = "*", features = ["derive"] }
serde_json = "*"
tempfile = "*"
unarc-rs = "*"
walkdir = "*"
