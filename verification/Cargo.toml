[package]
name = "easy_remit"
version = "0.1.0"
edition = "2021"
publish = false

[dependencies]
aes = "=0.7.5"
argon2 = "=0.5.3"
base64 = "=0.13.1"
block-modes = "=0.8.1"
iced = { version = "=0.4.2", default-features = false, features = ["glow"] }
once_cell = "=1.21.4"
rand = "=0.8.8"
regex = "=1.13.1"
rodio = { version = "0.15", default-features = false, features = ["wav"] }
rusqlite = { version = "=0.31.0", features = ["bundled"] }
