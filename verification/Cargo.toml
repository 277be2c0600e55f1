[package]
name = "laracli"
version = "0.4.3"
edition = "2021"
publish = false

[dependencies]
argh = "0.1"
chrono = "0.4"
colored = "2"
dirs = "5"
futures-util = "0.3"
indicatif = "0.17"
notify = "6"
reqwest = { version = "0.12", default-features = false, features = ["stream", "rustls-tls"] }
serde = { version = "1", features = ["derive"] }
serde_json = { version = "1", features = ["preserve_order"] }
tokio = { version = "1", features = ["rt-multi-thread", "macros", "time"] }
windows = { version = "0.52", features = ["Win32_Foundation", "Win32_Security", "Win32_System_Threading", "Win32_UI_Shell", "Win32_UI_WindowsAndMessaging"] }
windows-service = "0.7"
winreg = "0.52"
zip = { version = "0.6", default-features = false, features = ["deflate"] }
