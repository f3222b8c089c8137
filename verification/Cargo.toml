[package]
name = "orderly"
version = "0.1.0"
edition = "2021"
publish = false

[dependencies]
crossbeam-channel = "0.5"
libc = "0.2"
log = "0.4"
nix = { version = "0.26", default-features = false, features = ["process"] }
signal-hook = "0.1"
simple_logger = "1"
