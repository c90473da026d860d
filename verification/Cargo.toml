[package]
name = "softbuffer_win32"
version = "0.1.0"
edition = "2021"
publish = false

[dependencies]
raw-window-handle = "0.5"
windows-sys = { version = "0.48", features = ["Win32_Foundation", "Win32_Graphics_Gdi"] }
