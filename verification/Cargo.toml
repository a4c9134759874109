[package]
name = "popmax"
version = "0.1.0"
edition = "2021"
publish = false

[dependencies]
urlencoding = "2"
nucleo = "*"
serde = { version = "1", features = ["derive"] }
serde_json = "1"
webbrowser = "*"
walkdir = "2"
lnk = "*"
rayon = "1"
crossbeam-channel = "0.5"
widestring = "1"
image = { version = "*", default-features = false, features = ["png"] }
