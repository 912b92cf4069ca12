[package]
name = "bluez_zbus"
version = "0.1.0"
edition = "2021"
publish = false

[dependencies]
log = "0.4"
serde = { version = "1", features = ["derive"] }
uuid = "1"
zbus = "5"
