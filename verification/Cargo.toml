[package]
name = "panic_info"
version = "0.1.0"
edition = "2021"
publish = false

[dependencies]
plist = "=1.10.3"
windows = { version = "=0.59.0", features = ["Win32_Foundation", "Win32_System_WindowsProgramming"] }
windows-strings = "=0.3.1"
