[package]
name = "rustpad"
version = "0.1.0"
edition = "2021"
publish = false

[dependencies]
winapi = "0.2"
user32-sys = "*"
kernel32-sys = "*"
gdi32-sys = "*"
comdlg32-sys = "*"
comctl32-sys = "*"
