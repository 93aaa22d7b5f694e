[package]
name = "diskonaut"
version = "0.6.0"
edition = "2021"
publish = false

[dependencies]
unicode-width = "0.1"
walkdir = "2"
nix = "0.17"
tui = { version = "0.9", default-features = false, features = ["crossterm"] }
crossterm = "0.17"
failure = "0.1"
