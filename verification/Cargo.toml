[package]
name = "morgul"
version = "0.1.0"
edition = "2021"
publish = false

[dependencies]
bus = "*"
clap = { version = "*", features = ["derive"] }
core_affinity = "*"
itertools = "*"
libc = "*"
nix = { version = "*", features = ["socket", "net", "uio"] }
pnet = "*"
rand = "*"
socket2 = { version = "*", features = ["all"] }
thread-priority = "*"
