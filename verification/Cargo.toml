[package]
name = "codex_skin"
version = "0.1.0"
edition = "2021"
publish = false

[dependencies]
atomicwrites = "*"
base64 = "0.22"
chrono = "0.4"
dirs = "*"
futures-util = "0.3"
hex = "0.4"
image = { version = "0.25", default-features = false, features = ["jpeg", "png", "webp"] }
regex = "1"
reqwest = { version = "0.12", default-features = false, features = ["json", "stream", "rustls-tls"] }
semver = "1"
serde = { version = "1", features = ["derive"] }
serde_json = "1"
sha2 = "0.10"
sysinfo = "*"
tokio = { version = "1", features = ["macros", "net", "rt-multi-thread", "time"] }
tokio-tungstenite = "0.26"
url = "2"
uuid = { version = "1", features = ["v4"] }
windows = { version = "*", features = ["Win32_System_Com", "Win32_UI_Shell"] }
winreg = "*"

[dev-dependencies]
tempfile = "3"
