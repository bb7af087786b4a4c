[package]
name = "runar"
version = "0.1.0"
edition = "2021"
publish = false

[dependencies]
nix = { version = "*", features = ["event", "fs", "inotify", "poll", "process", "signal"] }
walkdir = "*"
