[package]
name = "ripclip"
version = "0.1.0"
edition = "2021"
publish = false

[dependencies]
dirs = "1.0"
winapi = { version = "0.3", features = ["errhandlingapi", "libloaderapi", "minwindef", "winbase", "windef", "winuser"] }
