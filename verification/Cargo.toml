[package]
name = "mxqueue"
version = "0.1.0"
edition = "2021"
publish = false

[dependencies]
anyhow = "1"
clap = { version = "4", features = ["derive"] }
crossterm = "0.25"
expanduser = "1"
log = "0.4"
ssh2 = "0.9"
ssh2-config = "*"
tui = "0.19"
walkdir = "2"
