[package]
name = "deet"
version = "0.1.0"
edition = "2021"
publish = false

[dependencies]
rustyline = "6.1"
rand = "0.7"
nix = "0.17.0"
libc = "0.2"
