[package]
name = "filo"
version = "0.1.0"
edition = "2021"
publish = false

[dependencies]
chrono = "0.4"
dirs = "*"
glob = "0.3"
regex = "1"
serde = { version = "1", features = ["derive"] }
serde_yaml = "0.9"
thiserror = "*"
uuid = { version = "1", features = ["v4"] }
windows-sys = { version = "*", features = ["Win32_Foundation", "Win32_Storage_FileSystem"] }
