[package]
name = "mimic"
version = "0.1.0"
edition = "2021"
publish = false

[dependencies]
base64 = "0.22"
clap = { version = "4", features = ["derive"] }
crossterm = "0.28"
dirs = "6"
image = { version = "0.25", default-features = false, features = ["png", "jpeg", "gif", "webp"] }
mlua = { version = "0.10", features = ["lua54", "vendored"] }
pulldown-cmark = "0.12"
ratatui = "0.29"
regex = "1"
resvg = "0.44"
rhai = "1"
serde = { version = "1", features = ["derive"] }
toml = "0.8"
tui-textarea = "0.7"
ureq = "2"
walkdir = "2"
