[package]
name = "codex_island"
version = "0.1.0"
edition = "2021"
publish = false

[dependencies]
serde = { version = "=1.0.229", features = ["derive"] }
serde_json = "=1.0.154"
dirs = "=7.0.0"
reqwest = { version = "=0.13.5", default-features = false, features = ["json"] }
tauri = { version = "=2.12.5", default-features = false, features = ["tray-icon", "image-png"] }
tauri-plugin-autostart = { version = "2", default-features = false }
windows = { version = "=0.62.2", features = ["Win32_Foundation", "Win32_Graphics_Gdi", "Win32_System_Threading", "Win32_UI_WindowsAndMessaging"] }
objc2-app-kit = "=0.3.2"
core-foundation = "0.10"
core-graphics = "0.24"
