[package]
name = "cosmic_client_toolkit"
version = "0.1.0"
edition = "2021"
publish = false

[dependencies]
wayland-client = "*"
wayland-protocols = { version = "*", features = ["client", "staging"] }
