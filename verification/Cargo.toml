[package]
name = "zmux"
version = "0.1.0"
edition = "2021"
publish = false

[dependencies]
arboard = { version = "3", default-features = false }
base64 = "0.22"
crossterm = "*"
nix = { version = "*", features = ["signal", "process", "user"] }
ratatui = "0.30"
regex = "1"
serde = { version = "1", features = ["derive"] }
serde_json = "1"
unicode-width = "0.2"
vt100 = "0.16"
