[package]
name = "wooting-host-profile"
version = "0.5.0"
edition = "2021"
publish = false

[dependencies]
anyhow = "1"
clap = { version = "4", features = ["derive"] }
ctrlc = "3"
dirs = "*"
encoding_rs = "0.8"
fs2 = "0.4"
getrandom = "0.3"
hidapi = "2"
rusty-leveldb = "3"
serde = { version = "1", features = ["derive"] }
serde_json = "1"
tempfile = "3"
toml = "0.8"
windows = { version = "*", features = ["Win32_Foundation", "Win32_UI_Controls", "Win32_UI_WindowsAndMessaging"] }
winreg = "*"
wooting-rgb-sys = "*"
