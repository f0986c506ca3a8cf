[package]
name = "keyscript"
version = "0.1.0"
edition = "2021"
publish = false

[dependencies]
evdev-rs = "*"
nom = "7.1"

[dev-dependencies]
tap = "1"
