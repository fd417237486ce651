[package]
name = "provision"
version = "0.1.0"
edition = "2021"
publish = false

[dependencies]
ergo_fs = "*"
symlink = "*"
yaml-rust = "*"
ansi_term = "*"
indicatif = "*"
tracing = "*"

[dev-dependencies]
tempfile = "*"
