[package]
name = "devenv_installer"
version = "0.1.0"
edition = "2021"
publish = false

[dependencies]
regex-lite = "=0.1.9"
serde = { version = "1", features = ["derive"] }
serde_json = "1"
reqwest = { version = "0.12", default-features = false, features = ["json"] }
tokio = { version = "1", default-features = false, features = ["rt"] }
tauri = { version = "2", default-features = false }
winreg = "0.52"
zip = { version = "2", default-features = false, features = ["deflate"] }
