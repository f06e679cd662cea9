[package]
name = "wallpaper"
version = "0.1.0"
edition = "2021"
publish = false

[dependencies]
rand = "*"
reqwest = { version = "*", default-features = false, features = ["blocking"] }
clap = "*"
nix = { version = "*", features = ["signal"] }
