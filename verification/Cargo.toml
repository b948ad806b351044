[package]
name = "res_switcher"
version = "0.1.0"
edition = "2021"
publish = false

[dependencies]
tray-item = "*"
windows = { version = "*", features = ["Win32_Foundation", "Win32_Graphics_Gdi"] }
