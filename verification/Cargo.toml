[package]
name = "clux"
version = "0.1.0"
edition = "2021"
publish = false

[dependencies]
anyhow = "1"
bytemuck = { version = "1", features = ["derive"] }
cosmic-text = "0.12"
crossbeam-channel = "0.5"
dirs = "6"
pollster = "0.4"
serde = { version = "1", features = ["derive"] }
serde_json = "1"
thiserror = "2"
toml = "0.8"
tracing = "0.1"
tracing-subscriber = { version = "0.3", features = ["env-filter"] }
vte = "*"
wgpu = "25"
windows = { version = "0.61", features = ["Win32_Foundation", "Win32_System_Console", "Win32_System_Pipes", "Win32_System_Threading", "Win32_Security", "Win32_Storage_FileSystem", "Win32_System_IO"] }
winit = "0.30"
