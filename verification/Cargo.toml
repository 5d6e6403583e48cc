[package]
name = "socket_programming"
version = "0.1.0"
edition = "2021"
publish = false

[dependencies]
nix = "0.23"
libc = "0.2"
