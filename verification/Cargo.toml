[package]
name = "drive_wallpaper"
version = "0.1.0"
edition = "2021"
publish = false

[dependencies]
anyhow = "1"
dirs = "5"
futures = "0.3"
google-drive3 = "5"
rand = "0.8"
tokio = { version = "1", features = ["full"] }
winapi = { version = "0.3", features = ["winuser"] }
x11 = { version = "2", features = ["xlib"] }
