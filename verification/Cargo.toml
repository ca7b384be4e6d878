[package]
name = "noise_bridge"
version = "0.1.0"
edition = "2021"
publish = false

[dependencies]
unix_socket = "=0.5.0"
