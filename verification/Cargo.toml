[package]
name = "ares_core"
version = "0.1.0"
edition = "2021"
publish = false

[dependencies]
ar = "*"
flate2 = "*"
tar = "*"
regex = "*"
elf = "*"
snailquote = "*"
sha256 = "*"
serde = { version = "*", features = ["derive"] }
serde_json = "*"
clap = { version = "*", features = ["derive"] }
walkdir = "*"
path-slash = "*"
crossterm = "*"
crossbeam-channel = "*"
indicatif = "*"
libssh-rs = "*"
pathdiff = "*"
hex = "*"
reqwest = { version = "*", default-features = false, features = ["blocking"] }
