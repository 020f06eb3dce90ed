[package]
name = "adbchelper"
version = "0.1.0"
edition = "2021"
publish = false

[dependencies]
chrono = "0.4"
keyring = { version = "3", features = ["apple-native", "windows-native", "linux-native"] }
mysql = "*"
reqwest = { version = "0.12", default-features = false, features = ["json", "rustls-tls"] }
rusqlite = { version = "*", features = ["bundled"] }
serde = { version = "1", features = ["derive"] }
serde_json = "1"
thiserror = "1"
uuid = { version = "1", features = ["v4"] }
