[package]
name = "dsh_desktop"
version = "0.1.0"
edition = "2021"
publish = false

[dependencies]
url = "=2.5.8"
open = "5"
tauri = { version = "=2.12.5", default-features = false, features = ["wry"] }
