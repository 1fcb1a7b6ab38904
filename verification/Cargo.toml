[package]
name = "excel_agent"
version = "0.1.0"
edition = "2021"
publish = false

[dependencies]
anyhow = "=1.0.104"
dioxus-logger = "0.6"
directories = "=5.0.1"
futures-util = "=0.3.34"
image = { version = "=0.25.10", default-features = false, features = ["png"] }
pyo3 = "=0.20.3"
raw-window-handle = "=0.6.2"
reqwest = { version = "=0.12.28", features = ["json"] }
rfd = "0.15"
serde = { version = "=1.0.229", features = ["derive"] }
serde_json = "=1.0.154"
tokio = { version = "=1.54.1", features = ["full"] }
tracing = "=0.1.44"
uuid = { version = "=1.29.0", features = ["v4"] }
windows-sys = { version = "=0.59.0", features = ["Win32_Foundation", "Win32_UI_WindowsAndMessaging", "Win32_UI_Input_KeyboardAndMouse"] }
zip = { version = "=2.6.1", default-features = false, features = ["deflate"] }
