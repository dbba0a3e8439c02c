[package]
name = "update-via-github"
version = "0.1.0"
edition = "2021"
rust-version = "1.85"
publish = false

[dependencies]
serde = { version = "1", features = ["derive"] }
serde_json = "1"
sha2 = "0.10"
windows-sys = { version = "0.61", features = ["Win32_Foundation", "Win32_Networking_WinHttp"] }
