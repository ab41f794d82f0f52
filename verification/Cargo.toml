[package]
name = "sunshine_control_panel"
version = "0.1.0"
edition = "2021"
publish = false

[dependencies]
url = "=2.5.8"
axum = "=0.7.9"
tower-http = { version = "=0.5.2", features = ["cors"] }
tokio = { version = "=1.54.1", features = ["full"] }
reqwest = { version = "=0.12.28", default-features = false, features = ["rustls-tls", "json", "stream"] }
futures-util = "=0.3.34"
log = "=0.4.34"
serde = { version = "=1.0.229", features = ["derive"] }
serde_json = "=1.0.154"
regex = "=1.13.1"
quick-xml = { version = "=0.42.0", features = ["serialize"] }
base64 = "=0.22.1"
chrono = "=0.4.45"
libc = "=0.2.191"
env_logger = "=0.11.11"
once_cell = "=1.21.4"
winreg = "=0.56.0"
wmi = "=0.18.4"
windows = { version = "=0.62.2", features = ["Win32_Foundation", "Win32_Security", "Win32_System_Threading", "Win32_System_Com", "Win32_System_IO", "Win32_Storage_FileSystem", "Win32_UI_Shell", "Win32_UI_WindowsAndMessaging", "Win32_Graphics_Gdi", "Win32_UI_HiDpi"] }
