[package]
name = "vssh"
version = "0.1.0"
edition = "2021"
publish = false

[dependencies]
nix = "=0.18.0"
libc = "=0.2.190"
anyhow = "=1.0.104"
