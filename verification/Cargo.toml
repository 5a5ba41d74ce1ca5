[package]
name = "wayland_probe"
version = "0.1.0"
edition = "2021"
publish = false

[dependencies]
redox_syscall = "0.5"
