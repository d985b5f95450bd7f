[package]
name = "alias_lib"
version = "0.1.0"
edition = "2021"
publish = false

[dependencies]
shlex = "1"
windows-sys = { version = "*", features = ["Win32_Foundation", "Win32_System_Console"] }
winreg = "*"
