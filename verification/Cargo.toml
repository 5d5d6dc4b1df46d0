[package]
name = "dirlist"
version = "0.1.0"
edition = "2021"
publish = false

[dependencies]
ansiterm = "*"
chrono = { version = "0.4", default-features = false, features = ["std"] }
libc = "0.2"
locale = "*"
